//! Exporting a report as Markdown or as a basic PDF document.
use vstd::prelude::*;

use crate::error::AppError;
use crate::models::Report;
use crate::text::{
    chars_of, owned, push_char, push_decimal, push_str, push_zero_padded, spec_ascii_lower,
    spec_decimal, spec_split, spec_trim, spec_zero_padded, split_char, str_eq, string_of,
    to_ascii_lower, trim,
};
use vstd::utf8::encode_utf8;

verus! {

// ---------------------------------------------------------------------------
// Format and destination
// ---------------------------------------------------------------------------
/// The export formats.
#[derive(Debug, Clone, Copy, PartialEq, Eq, Structural)]
pub enum ExportFormat {
    Markdown,
    Pdf,
}

/// The format named by `format` (surrounding whitespace and ASCII case
/// ignored): `md` or `pdf`.
pub open spec fn spec_export_format(format: Seq<char>) -> Option<ExportFormat> {
    let f = spec_ascii_lower(spec_trim(format));
    if f == "md"@ {
        Some(ExportFormat::Markdown)
    } else if f == "pdf"@ {
        Some(ExportFormat::Pdf)
    } else {
        None
    }
}

/// Reads the export format; anything but `md` or `pdf` is refused.
pub fn export_format(format: &str) -> (r: Result<ExportFormat, AppError>)
    ensures
        match spec_export_format(format@) {
            Some(f) => r == Ok::<ExportFormat, AppError>(f),
            None => r matches Err(AppError::Validation(d)) && d@ == "format 須為 md 或 pdf"@,
        },
{
    let t = trim(format);
    let tc = chars_of(t.as_str());
    let lower = to_ascii_lower(tc.as_slice());
    let l = string_of(lower.as_slice(), 0, lower.len());
    assert(lower@.subrange(0, lower@.len() as int) =~= lower@);
    if str_eq(l.as_str(), "md") {
        Ok(ExportFormat::Markdown)
    } else if str_eq(l.as_str(), "pdf") {
        Ok(ExportFormat::Pdf)
    } else {
        Err(AppError::Validation(owned("format 須為 md 或 pdf")))
    }
}

/// Where a report was written.
#[derive(Debug, Clone)]
pub struct ReportExportResult {
    pub path: String,
}

/// The destination path, trimmed; an empty path is refused.
pub fn export_path(out_path: &str) -> (r: Result<String, AppError>)
    ensures
        spec_trim(out_path@).len() > 0 ==> (r matches Ok(p) && p@ == spec_trim(out_path@)),
        spec_trim(out_path@).len() == 0 ==> (r matches Err(AppError::Validation(d)) && d@
            == "匯出路徑不可為空"@),
{
    let t = trim(out_path);
    if t.as_str().is_empty() {
        Err(AppError::Validation(owned("匯出路徑不可為空")))
    } else {
        Ok(t)
    }
}

// ---------------------------------------------------------------------------
// Markdown
// ---------------------------------------------------------------------------
/// The Markdown document of a report: title heading, generation time, model
/// endpoint (when known), a rule, then the summary.
pub open spec fn spec_report_markdown(r: Report) -> Seq<char> {
    "# "@ + r.title@ + "\n\n"@ + "- 產生時間："@ + r.generated_at@ + "\n"@ + (match r.model_endpoint {
        Some(e) => "- 模型端點："@ + e@ + "\n"@,
        None => Seq::empty(),
    }) + "\n---\n\n"@ + r.summary_md@
}

/// The Markdown document of a report.
pub fn report_markdown(report: &Report) -> (s: String)
    ensures
        s@ == spec_report_markdown(*report),
{
    let mut content = owned("# ");
    push_str(&mut content, report.title.as_str());
    push_str(&mut content, "\n\n");
    push_str(&mut content, "- 產生時間：");
    push_str(&mut content, report.generated_at.as_str());
    push_str(&mut content, "\n");
    let ghost head = content@;
    match &report.model_endpoint {
        Some(endpoint) => {
            push_str(&mut content, "- 模型端點：");
            push_str(&mut content, endpoint.as_str());
            push_str(&mut content, "\n");
            assert(content@ =~= head + ("- 模型端點："@ + endpoint@ + "\n"@));
        },
        None => {
            assert(content@ =~= head + Seq::<char>::empty());
        },
    }
    push_str(&mut content, "\n---\n\n");
    push_str(&mut content, report.summary_md.as_str());
    assert(content@ =~= spec_report_markdown(*report));
    content
}

// ---------------------------------------------------------------------------
// Lines and wrapping
// ---------------------------------------------------------------------------
/// Removes one `\r` at the end.
pub open spec fn strip_cr(s: Seq<char>) -> Seq<char> {
    if s.len() > 0 && s.last() == '\r' {
        s.drop_last()
    } else {
        s
    }
}

/// `str::lines`: the text split at `\n`, each line ended by `\n` losing a
/// `\r` before it, and no empty last line after a final `\n`.
pub open spec fn spec_lines(s: Seq<char>) -> Seq<Seq<char>> {
    let ps = spec_split(s, '\n');
    let n = ps.len();
    let count = if ps.last().len() == 0 {
        n - 1
    } else {
        n as int
    };
    Seq::new(count as nat, |i: int| if i < n - 1 { strip_cr(ps[i]) } else { ps[i] })
}

proof fn lemma_split_nonempty(s: Seq<char>, c: char)
    ensures
        spec_split(s, c).len() >= 1,
    decreases s.len(),
{
    crate::text::lemma_find_char_bound(s, c);
    if let Some(i) = crate::text::find_char(s, c) {
        lemma_split_nonempty(s.subrange(i as int + 1, s.len() as int), c);
    }
}

/// `str::lines`.
pub fn lines(s: &str) -> (r: Vec<String>)
    ensures
        r@.len() == spec_lines(s@).len(),
        forall|k: int| 0 <= k < r@.len() ==> #[trigger] r@[k]@ == spec_lines(s@)[k],
{
    let cs = chars_of(s);
    let ps = split_char(cs.as_slice(), '\n');
    let ghost sp = spec_split(s@, '\n');
    proof {
        lemma_split_nonempty(s@, '\n');
    }
    let n = ps.len();
    let count = if ps[n - 1].as_str().is_empty() {
        n - 1
    } else {
        n
    };
    let mut r: Vec<String> = Vec::new();
    let mut i: usize = 0;
    while i < count
        invariant
            n == ps@.len() == sp.len() >= 1,
            sp == spec_split(s@, '\n'),
            spec_lines(s@).len() == count,
            count <= n,
            count == (if sp.last().len() == 0 {
                n - 1
            } else {
                n as int
            }),
            forall|k: int| 0 <= k < ps@.len() ==> #[trigger] ps@[k]@ == sp[k],
            i <= count,
            r@.len() == i,
            forall|k: int| 0 <= k < i ==> #[trigger] r@[k]@ == spec_lines(s@)[k],
        decreases count - i,
    {
        let pc = chars_of(ps[i].as_str());
        let line = if i < n - 1 && pc.len() > 0 && pc[pc.len() - 1] == '\r' {
            string_of(pc.as_slice(), 0, pc.len() - 1)
        } else {
            string_of(pc.as_slice(), 0, pc.len())
        };
        proof {
            assert(pc@.subrange(0, pc@.len() as int) =~= pc@);
            if pc@.len() > 0 {
                assert(pc@.subrange(0, pc@.len() - 1) =~= pc@.drop_last());
            }
        }
        assert(line@ == spec_lines(s@)[i as int]);
        let ghost prev = r@;
        r.push(line);
        assert forall|k: int| 0 <= k < i + 1 implies #[trigger] r@[k]@ == spec_lines(s@)[k] by {
            if k < i {
                assert(r@[k] == prev[k]);
            }
        }
        i = i + 1;
    }
    r
}

/// Pieces of `s` of `w` characters each (the last one possibly shorter).
pub open spec fn spec_chunks<T>(s: Seq<T>, w: nat) -> Seq<Seq<T>>
    decreases s.len(),
{
    if s.len() == 0 || w == 0 {
        Seq::empty()
    } else if s.len() <= w {
        seq![s]
    } else {
        seq![s.take(w as int)] + spec_chunks(s.skip(w as int), w)
    }
}

/// A line wrapped for the PDF page: an empty line stays one empty line,
/// any other is cut into pieces of `width` characters (at least one).
pub open spec fn spec_wrap(line: Seq<char>, width: nat) -> Seq<Seq<char>> {
    if line.len() == 0 {
        seq![Seq::empty()]
    } else {
        spec_chunks(line, if width == 0 { 1 } else { width })
    }
}

/// The concatenation of a sequence of sequences.
pub open spec fn concat<T>(ss: Seq<Seq<T>>) -> Seq<T>
    decreases ss.len(),
{
    if ss.len() == 0 {
        Seq::empty()
    } else {
        concat(ss.drop_last()) + ss.last()
    }
}

proof fn lemma_concat_prepend<T>(x: Seq<T>, ss: Seq<Seq<T>>)
    ensures
        concat(seq![x] + ss) == x + concat(ss),
    decreases ss.len(),
{
    if ss.len() == 0 {
        assert(seq![x] + ss =~= seq![x]);
        assert(seq![x].drop_last() =~= Seq::<Seq<T>>::empty());
        assert(concat(Seq::<Seq<T>>::empty()) == Seq::<T>::empty());
        assert(concat(seq![x]) == concat(seq![x].drop_last()) + seq![x].last());
        assert(Seq::<T>::empty() + x =~= x);
        assert(x + Seq::<T>::empty() =~= x);
    } else {
        lemma_concat_prepend(x, ss.drop_last());
        assert((seq![x] + ss).drop_last() =~= seq![x] + ss.drop_last());
        assert((seq![x] + ss).last() == ss.last());
        assert(x + concat(ss.drop_last()) + ss.last() =~= x + (concat(ss.drop_last())
            + ss.last()));
    }
}

/// Cutting into pieces loses and reorders nothing, and no piece is longer
/// than the width.
pub proof fn lemma_chunks<T>(s: Seq<T>, w: nat)
    requires
        w > 0,
    ensures
        concat(spec_chunks(s, w)) == s,
        forall|k: int|
            0 <= k < spec_chunks(s, w).len() ==> 0 < (#[trigger] spec_chunks(s, w)[k]).len() <= w,
    decreases s.len(),
{
    if s.len() == 0 {
    } else if s.len() <= w {
        lemma_concat_prepend(s, Seq::<Seq<T>>::empty());
        assert(seq![s] + Seq::<Seq<T>>::empty() =~= seq![s]);
        assert(concat(Seq::<Seq<T>>::empty()) == Seq::<T>::empty());
        assert(s + Seq::<T>::empty() =~= s);
    } else {
        lemma_chunks(s.skip(w as int), w);
        lemma_concat_prepend(s.take(w as int), spec_chunks(s.skip(w as int), w));
        assert(s.take(w as int) + s.skip(w as int) =~= s);
        let rest = spec_chunks(s.skip(w as int), w);
        assert forall|k: int|
            0 <= k < spec_chunks(s, w).len() implies 0 < (#[trigger] spec_chunks(
            s,
            w,
        )[k]).len() <= w by {
            if k > 0 {
                assert(spec_chunks(s, w)[k] == rest[k - 1]);
            }
        }
    }
}

/// Wrapping a line keeps its text, and no piece exceeds the width.
pub proof fn lemma_wrap_keeps_text(line: Seq<char>, width: nat)
    requires
        width > 0,
    ensures
        concat(spec_wrap(line, width)) == line,
        forall|k: int|
            0 <= k < spec_wrap(line, width).len() ==> (#[trigger] spec_wrap(line, width)[k]).len()
                <= width,
{
    if line.len() == 0 {
        lemma_concat_prepend(line, Seq::<Seq<char>>::empty());
        assert(seq![line] + Seq::<Seq<char>>::empty() =~= seq![line]);
        assert(concat(Seq::<Seq<char>>::empty()) == Seq::<char>::empty());
        assert(line + Seq::<char>::empty() =~= line);
        assert(line =~= Seq::<char>::empty());
    } else {
        lemma_chunks(line, width);
    }
}

/// Wraps a line for the PDF page.
pub fn wrap_pdf_line(line: &str, width: usize) -> (r: Vec<String>)
    ensures
        r@.len() == spec_wrap(line@, width as nat).len(),
        forall|k: int| 0 <= k < r@.len() ==> #[trigger] r@[k]@ == spec_wrap(line@, width as nat)[k],
{
    let cs = chars_of(line);
    let mut wrapped: Vec<String> = Vec::new();
    if cs.len() == 0 {
        wrapped.push(String::new());
        return wrapped;
    }
    let w: usize = if width == 0 {
        1
    } else {
        width
    };
    let mut start: usize = 0;
    assert(cs@.skip(0) =~= cs@);
    assert(wrapped@.map_values(|x: String| x@) + spec_chunks(cs@, w as nat) =~= spec_chunks(
        cs@,
        w as nat,
    ));
    while start < cs.len()
        invariant
            w > 0,
            w == (if width == 0 {
                1
            } else {
                width
            }),
            cs@ == line@,
            cs@.len() > 0,
            start <= cs@.len(),
            spec_chunks(cs@, w as nat) == wrapped@.map_values(|x: String| x@) + spec_chunks(
                cs@.skip(start as int),
                w as nat,
            ),
        decreases cs.len() - start,
    {
        let rest = cs.len() - start;
        let end = if rest <= w {
            cs.len()
        } else {
            start + w
        };
        let piece = string_of(cs.as_slice(), start, end);
        let ghost tail = cs@.skip(start as int);
        let ghost before = wrapped@.map_values(|x: String| x@);
        wrapped.push(piece);
        assert(wrapped@.map_values(|x: String| x@) =~= before.push(piece@));
        if rest <= w {
            assert(piece@ =~= tail);
            assert(cs@.skip(end as int) =~= Seq::<char>::empty());
            assert(spec_chunks(tail, w as nat) == seq![tail]);
            assert(before + seq![tail] =~= before.push(piece@) + spec_chunks(
                cs@.skip(end as int),
                w as nat,
            ));
        } else {
            assert(piece@ =~= tail.take(w as int));
            assert(tail.skip(w as int) =~= cs@.skip(end as int));
            assert(before + (seq![tail.take(w as int)] + spec_chunks(tail.skip(w as int), w as nat))
                =~= before.push(piece@) + spec_chunks(cs@.skip(end as int), w as nat));
        }
        start = end;
    }
    proof {
        assert(cs@.skip(start as int) =~= Seq::<char>::empty());
        assert(wrapped@.map_values(|x: String| x@) + Seq::<Seq<char>>::empty() =~= wrapped@.map_values(
            |x: String| x@,
        ));
        assert(cs@.skip(0) =~= cs@);
        assert forall|k: int| 0 <= k < wrapped@.len() implies #[trigger] wrapped@[k]@ == spec_wrap(
            line@,
            width as nat,
        )[k] by {
            assert(wrapped@.map_values(|x: String| x@)[k] == wrapped@[k]@);
        }
    }
    wrapped
}

// ---------------------------------------------------------------------------
// PDF text encoding
// ---------------------------------------------------------------------------
/// The UTF-16 code units of a character.
pub open spec fn utf16_units(c: char) -> Seq<u16> {
    let v = c as u32;
    if v < 0x10000 {
        seq![v as u16]
    } else {
        let u = v - 0x10000;
        seq![(0xD800 + u / 1024) as u16, (0xDC00 + u % 1024) as u16]
    }
}

/// An upper-case hexadecimal digit.
pub open spec fn hex_digit(d: int) -> char {
    if d < 10 {
        (('0' as int) + d) as char
    } else {
        (('A' as int) + d - 10) as char
    }
}

/// A 16-bit unit as four upper-case hexadecimal digits (its two bytes,
/// high byte first, as `{:02X}` each).
pub open spec fn hex4(u: u16) -> Seq<char> {
    seq![
        hex_digit((u / 4096) as int),
        hex_digit(((u / 256) % 16) as int),
        hex_digit(((u / 16) % 16) as int),
        hex_digit((u % 16) as int),
    ]
}

/// The hexadecimal digits of the UTF-16 units of a character.
pub open spec fn char_hex(c: char) -> Seq<char> {
    let us = utf16_units(c);
    if us.len() == 1 {
        hex4(us[0])
    } else {
        hex4(us[0]) + hex4(us[1])
    }
}

/// The hexadecimal digits of the UTF-16 encoding of a text.
pub open spec fn text_hex(s: Seq<char>) -> Seq<char>
    decreases s.len(),
{
    if s.len() == 0 {
        Seq::empty()
    } else {
        text_hex(s.drop_last()) + char_hex(s.last())
    }
}

/// A PDF hexadecimal string holding `s` as UTF-16 with a byte order mark.
pub open spec fn spec_pdf_utf16_hex(s: Seq<char>) -> Seq<char> {
    "<FEFF"@ + text_hex(s) + ">"@
}

fn push_hex_digit(out: &mut String, d: u32)
    requires
        d < 16,
    ensures
        final(out)@ == old(out)@.push(hex_digit(d as int)),
{
    let b: u8 = if d < 10 {
        48 + d as u8
    } else {
        55 + d as u8
    };
    push_char(out, b as char);
}

fn push_hex4(out: &mut String, u: u32)
    requires
        u < 0x10000,
    ensures
        final(out)@ == old(out)@ + hex4(u as u16),
{
    push_hex_digit(out, u / 4096);
    push_hex_digit(out, (u / 256) % 16);
    push_hex_digit(out, (u / 16) % 16);
    push_hex_digit(out, u % 16);
    assert(final(out)@ =~= old(out)@ + hex4(u as u16));
}

/// Encodes a text as a PDF hexadecimal string in UTF-16 with a byte order
/// mark.
pub fn pdf_utf16_hex(value: &str) -> (r: String)
    ensures
        r@ == spec_pdf_utf16_hex(value@),
{
    let cs = chars_of(value);
    let mut out = owned("<FEFF");
    let ghost start = out@;
    let mut i: usize = 0;
    while i < cs.len()
        invariant
            i <= cs@.len(),
            out@ == start + text_hex(cs@.take(i as int)),
        decreases cs.len() - i,
    {
        let v: u32 = cs[i] as u32;
        if v < 0x10000 {
            push_hex4(&mut out, v);
        } else {
            let u = v - 0x10000;
            proof {
                vstd::utf8::char_is_scalar(cs@[i as int]);
            }
            assert(u < 0x100000);
            push_hex4(&mut out, 0xD800 + u / 1024);
            push_hex4(&mut out, 0xDC00 + u % 1024);
        }
        assert(cs@.take(i + 1).drop_last() =~= cs@.take(i as int));
        assert(cs@.take(i + 1).last() == cs@[i as int]);
        i = i + 1;
        assert(out@ =~= start + text_hex(cs@.take(i as int)));
    }
    push_str(&mut out, ">");
    assert(cs@.take(i as int) =~= value@);
    assert(out@ =~= spec_pdf_utf16_hex(value@));
    out
}

/// The content stream of one page: a text object that shows each line
/// and moves to the next line after it.
pub open spec fn spec_page_stream(lines: Seq<Seq<char>>) -> Seq<char> {
    "BT\n/F1 11 Tf\n50 800 Td\n15 TL\n"@ + shown_lines(lines) + "ET\n"@
}

/// The operators that show each line in turn.
pub open spec fn shown_lines(lines: Seq<Seq<char>>) -> Seq<char>
    decreases lines.len(),
{
    if lines.len() == 0 {
        Seq::empty()
    } else {
        shown_lines(lines.drop_last()) + spec_pdf_utf16_hex(lines.last()) + " Tj\nT*\n"@
    }
}

pub open spec fn strings_view(v: Seq<String>) -> Seq<Seq<char>> {
    v.map_values(|s: String| s@)
}

/// The content stream of one page.
pub fn pdf_page_stream(lines: &[String]) -> (r: String)
    ensures
        r@ == spec_page_stream(strings_view(lines@)),
{
    let ghost ls = strings_view(lines@);
    let mut stream = owned("BT\n/F1 11 Tf\n50 800 Td\n15 TL\n");
    let ghost start = stream@;
    let mut i: usize = 0;
    while i < lines.len()
        invariant
            ls == strings_view(lines@),
            i <= lines@.len(),
            stream@ == start + shown_lines(ls.take(i as int)),
        decreases lines.len() - i,
    {
        let h = pdf_utf16_hex(lines[i].as_str());
        push_str(&mut stream, h.as_str());
        push_str(&mut stream, " Tj\nT*\n");
        assert(ls.take(i + 1).drop_last() =~= ls.take(i as int));
        assert(ls.take(i + 1).last() == lines@[i as int]@);
        i = i + 1;
        assert(stream@ =~= start + shown_lines(ls.take(i as int)));
    }
    push_str(&mut stream, "ET\n");
    assert(ls.take(i as int) =~= ls);
    assert(stream@ =~= spec_page_stream(ls));
    stream
}

// ---------------------------------------------------------------------------
// PDF document
// ---------------------------------------------------------------------------
/// Width, in characters, of a wrapped summary line.
pub const PDF_LINE_WIDTH: usize = 72;

/// Lines per PDF page.
pub const PDF_LINES_PER_PAGE: usize = 45;

/// The summary lines, each wrapped to the line width.
pub open spec fn wrapped_all(ls: Seq<Seq<char>>) -> Seq<Seq<char>>
    decreases ls.len(),
{
    if ls.len() == 0 {
        Seq::empty()
    } else {
        wrapped_all(ls.drop_last()) + spec_wrap(ls.last(), PDF_LINE_WIDTH as nat)
    }
}

/// The text lines of a report's PDF: title, generation time, model endpoint
/// (when known), an empty line, then the wrapped summary lines.
pub open spec fn spec_pdf_lines(r: Report) -> Seq<Seq<char>> {
    seq![r.title@, "產生時間："@ + r.generated_at@] + (match r.model_endpoint {
        Some(e) => seq!["模型端點："@ + e@],
        None => Seq::empty(),
    }) + seq![Seq::<char>::empty()] + wrapped_all(spec_lines(r.summary_md@))
}

/// The `Kids` list of the page tree: `3 0 R 5 0 R ...` for `n` pages.
pub open spec fn spec_kids(n: nat) -> Seq<char>
    decreases n,
{
    if n == 0 {
        Seq::empty()
    } else if n == 1 {
        spec_decimal(3) + " 0 R"@
    } else {
        spec_kids((n - 1) as nat) + " "@ + spec_decimal((3 + 2 * (n - 1)) as nat) + " 0 R"@
    }
}

/// The page tree object.
pub open spec fn spec_pages_dict(n: nat) -> Seq<char> {
    "<< /Type /Pages /Kids ["@ + spec_kids(n) + "] /Count "@ + spec_decimal(n) + " >>"@
}

/// The page object of page `i`.
pub open spec fn spec_page_dict(i: nat, font: nat) -> Seq<char> {
    "<< /Type /Page /Parent 2 0 R /MediaBox [0 0 595 842] /Resources << /Font << /F1 "@
        + spec_decimal(font) + " 0 R >> >> /Contents "@ + spec_decimal(3 + 2 * i + 1)
        + " 0 R >>"@
}

/// The content stream object holding `stream`.
pub open spec fn spec_content_obj(stream: Seq<char>) -> Seq<char> {
    "<< /Length "@ + spec_decimal(encode_utf8(stream).len()) + " >>\nstream\n"@ + stream
        + "endstream"@
}

/// The page and content objects of the pages, in order.
pub open spec fn spec_page_objects(pages: Seq<Seq<Seq<char>>>, font: nat) -> Seq<Seq<char>>
    decreases pages.len(),
{
    if pages.len() == 0 {
        Seq::empty()
    } else {
        spec_page_objects(pages.drop_last(), font) + seq![
            spec_page_dict((pages.len() - 1) as nat, font),
            spec_content_obj(spec_page_stream(pages.last())),
        ]
    }
}

/// The objects of the document: catalog, page tree, a page and a content
/// stream per page, then the font.
pub open spec fn spec_pdf_objects(pages: Seq<Seq<Seq<char>>>) -> Seq<Seq<char>> {
    seq!["<< /Type /Catalog /Pages 2 0 R >>"@, spec_pages_dict(pages.len())] + spec_page_objects(
        pages,
        3 + 2 * pages.len(),
    ) + seq!["<< /Type /Font /Subtype /Type1 /BaseFont /Helvetica >>"@]
}

/// The file header: version line and a comment of four high bytes.
pub open spec fn pdf_header() -> Seq<u8> {
    seq![0x25u8, 0x50, 0x44, 0x46, 0x2d, 0x31, 0x2e, 0x34, 0x0a, 0x25, 0xe2, 0xe3, 0xcf, 0xd3, 0x0a]
}

/// Object `i` (numbered `i + 1`) as written in the file.
pub open spec fn spec_entry(i: nat, obj: Seq<char>) -> Seq<char> {
    spec_decimal(i + 1) + " 0 obj\n"@ + obj + "\nendobj\n"@
}

/// The header followed by the objects.
pub open spec fn spec_body(objs: Seq<Seq<char>>) -> Seq<u8>
    decreases objs.len(),
{
    if objs.len() == 0 {
        pdf_header()
    } else {
        spec_body(objs.drop_last()) + encode_utf8(
            spec_entry((objs.len() - 1) as nat, objs.last()),
        )
    }
}

/// The cross-reference rows of the first `k` objects: each object's byte
/// offset, zero-padded to ten digits.
pub open spec fn spec_xref_rows(objs: Seq<Seq<char>>, k: nat) -> Seq<u8>
    decreases k,
{
    if k == 0 {
        Seq::empty()
    } else {
        spec_xref_rows(objs, (k - 1) as nat) + encode_utf8(
            spec_zero_padded(spec_body(objs.take(k - 1)).len(), 10) + " 00000 n \n"@,
        )
    }
}

/// The bytes of a PDF file holding the objects.
pub open spec fn spec_pdf_bytes(objs: Seq<Seq<char>>) -> Seq<u8> {
    let b = spec_body(objs);
    let n = objs.len();
    b + encode_utf8("xref\n0 "@ + spec_decimal(n + 1) + "\n"@) + encode_utf8(
        "0000000000 65535 f \n"@,
    ) + spec_xref_rows(objs, n) + encode_utf8(
        "trailer\n<< /Size "@ + spec_decimal(n + 1) + " /Root 1 0 R >>\nstartxref\n"@
            + spec_decimal(b.len()) + "\n%%EOF\n"@,
    )
}

/// The bytes written for the first `k` objects start the bytes written for
/// all of them.
proof fn lemma_body_prefix(objs: Seq<Seq<char>>, k: int)
    requires
        0 <= k <= objs.len(),
    ensures
        spec_body(objs.take(k)).len() <= spec_body(objs).len(),
        spec_body(objs).subrange(0, spec_body(objs.take(k)).len() as int) == spec_body(
            objs.take(k),
        ),
    decreases objs.len(),
{
    if k == objs.len() {
        assert(objs.take(k) =~= objs);
        assert(spec_body(objs).subrange(0, spec_body(objs).len() as int) =~= spec_body(objs));
    } else {
        let d = objs.drop_last();
        lemma_body_prefix(d, k);
        assert(d.take(k) =~= objs.take(k));
        let tail = encode_utf8(spec_entry((objs.len() - 1) as nat, objs.last()));
        assert(spec_body(objs) == spec_body(d) + tail);
        assert(spec_body(objs).subrange(0, spec_body(objs.take(k)).len() as int) =~= spec_body(
            d,
        ).subrange(0, spec_body(d.take(k)).len() as int));
    }
}

/// In a PDF file, the offset that the cross-reference table gives for each
/// object (the length of everything written before it) is where that
/// object's `n 0 obj ... endobj` entry starts; and `startxref` gives where
/// the `xref` table starts.
pub proof fn lemma_pdf_offsets(objs: Seq<Seq<char>>, i: int)
    requires
        0 <= i < objs.len(),
    ensures
        ({
            let off = spec_body(objs.take(i)).len() as int;
            let entry = encode_utf8(spec_entry(i as nat, objs[i]));
            &&& off + entry.len() <= spec_pdf_bytes(objs).len()
            &&& spec_pdf_bytes(objs).subrange(off, off + entry.len()) == entry
        }),
        ({
            let start = spec_body(objs).len() as int;
            let table = encode_utf8("xref\n0 "@ + spec_decimal(objs.len() + 1) + "\n"@);
            spec_pdf_bytes(objs).subrange(start, start + table.len()) == table
        }),
{
    let off = spec_body(objs.take(i)).len() as int;
    let entry = encode_utf8(spec_entry(i as nat, objs[i]));
    let next = objs.take(i + 1);
    assert(next.drop_last() =~= objs.take(i));
    assert(next.last() == objs[i]);
    assert(spec_body(next) == spec_body(objs.take(i)) + entry);
    lemma_body_prefix(objs, i + 1);
    let body = spec_body(objs);
    let all = spec_pdf_bytes(objs);
    assert(all.subrange(0, body.len() as int) =~= body);
    assert(all.subrange(off, off + entry.len()) =~= spec_body(next).subrange(
        off,
        off + entry.len(),
    ));
    assert(spec_body(next).subrange(off, off + entry.len()) =~= entry);
    let table = encode_utf8("xref\n0 "@ + spec_decimal(objs.len() + 1) + "\n"@);
    assert(all.subrange(body.len() as int, body.len() as int + table.len()) =~= table);
}

/// The PDF file of a report.
pub open spec fn spec_report_pdf(r: Report) -> Seq<u8> {
    spec_pdf_bytes(spec_pdf_objects(spec_chunks(spec_pdf_lines(r), PDF_LINES_PER_PAGE as nat)))
}

/// Appends the UTF-8 bytes of `s`.
fn push_utf8(out: &mut Vec<u8>, s: &str)
    ensures
        final(out)@ == old(out)@ + encode_utf8(s@),
{
    let bs = s.as_bytes();
    let mut i: usize = 0;
    while i < bs.len()
        invariant
            i <= bs@.len(),
            bs@ == encode_utf8(s@),
            out@ == old(out)@ + bs@.take(i as int),
        decreases bs.len() - i,
    {
        out.push(bs[i]);
        i = i + 1;
        assert(out@ =~= old(out)@ + bs@.take(i as int));
    }
    assert(bs@.take(i as int) =~= bs@);
}

/// The text lines of a report's PDF.
fn pdf_lines(report: &Report) -> (r: Vec<String>)
    ensures
        strings_view(r@) == spec_pdf_lines(*report),
{
    let mut out: Vec<String> = Vec::new();
    out.push(report.title.clone());
    let mut t = owned("產生時間：");
    push_str(&mut t, report.generated_at.as_str());
    out.push(t);
    let ghost two = strings_view(out@);
    match &report.model_endpoint {
        Some(endpoint) => {
            let mut e = owned("模型端點：");
            push_str(&mut e, endpoint.as_str());
            out.push(e);
        },
        None => {},
    }
    out.push(String::new());
    let ghost head = strings_view(out@);
    assert(head =~= seq![report.title@, "產生時間："@ + report.generated_at@] + (
    match report.model_endpoint {
        Some(e) => seq!["模型端點："@ + e@],
        None => Seq::empty(),
    }) + seq![Seq::<char>::empty()]);
    let summary = lines(report.summary_md.as_str());
    let ghost sl = spec_lines(report.summary_md@);
    assert(strings_view(summary@) =~= sl);
    let mut i: usize = 0;
    while i < summary.len()
        invariant
            i <= summary@.len(),
            strings_view(summary@) == sl,
            strings_view(out@) == head + wrapped_all(sl.take(i as int)),
        decreases summary.len() - i,
    {
        let w = wrap_pdf_line(summary[i].as_str(), PDF_LINE_WIDTH);
        let ghost before = strings_view(out@);
        let mut j: usize = 0;
        while j < w.len()
            invariant
                j <= w@.len(),
                strings_view(out@) == before + strings_view(w@).take(j as int),
            decreases w.len() - j,
        {
            let c = w[j].clone();
            assert(c@ == strings_view(w@)[j as int]);
            let ghost prev = out@;
            out.push(c);
            assert(strings_view(out@) =~= strings_view(prev).push(c@));
            assert(strings_view(w@).take(j + 1) =~= strings_view(w@).take(j as int).push(c@));
            j = j + 1;
            assert(strings_view(out@) =~= before + strings_view(w@).take(j as int));
        }
        assert(strings_view(w@) =~= spec_wrap(sl[i as int], PDF_LINE_WIDTH as nat));
        assert(strings_view(w@).take(j as int) =~= strings_view(w@));
        assert(sl.take(i + 1).drop_last() =~= sl.take(i as int));
        assert(sl.take(i + 1).last() == sl[i as int]);
        i = i + 1;
        assert(strings_view(out@) =~= head + wrapped_all(sl.take(i as int)));
    }
    assert(sl.take(i as int) =~= sl);
    out
}

/// Cuts the lines into pages.
fn paginate(lines: &Vec<String>) -> (r: Vec<Vec<String>>)
    ensures
        r@.len() == spec_chunks(strings_view(lines@), PDF_LINES_PER_PAGE as nat).len(),
        forall|k: int|
            0 <= k < r@.len() ==> strings_view(#[trigger] r@[k]@) == spec_chunks(
                strings_view(lines@),
                PDF_LINES_PER_PAGE as nat,
            )[k],
{
    let ghost all = strings_view(lines@);
    let w = PDF_LINES_PER_PAGE;
    let mut pages: Vec<Vec<String>> = Vec::new();
    let mut start: usize = 0;
    assert(all.skip(0) =~= all);
    assert(Seq::<Seq<Seq<char>>>::empty() + spec_chunks(all, w as nat) =~= spec_chunks(
        all,
        w as nat,
    ));
    while start < lines.len()
        invariant
            all == strings_view(lines@),
            w == PDF_LINES_PER_PAGE,
            start <= lines@.len(),
            spec_chunks(all, w as nat) == pages@.map_values(|p: Vec<String>| strings_view(p@))
                + spec_chunks(all.skip(start as int), w as nat),
        decreases lines.len() - start,
    {
        let rest = lines.len() - start;
        let end = if rest <= w {
            lines.len()
        } else {
            start + w
        };
        let mut page: Vec<String> = Vec::new();
        let mut k = start;
        while k < end
            invariant
                start <= k <= end <= lines@.len(),
                strings_view(page@) == all.subrange(start as int, k as int),
                all == strings_view(lines@),
            decreases end - k,
        {
            let c = lines[k].clone();
            assert(c@ == all[k as int]);
            let ghost prev = page@;
            page.push(c);
            assert(strings_view(page@) =~= strings_view(prev).push(c@));
            k = k + 1;
            assert(strings_view(page@) =~= all.subrange(start as int, k as int));
        }
        let ghost tail = all.skip(start as int);
        let ghost before = pages@.map_values(|p: Vec<String>| strings_view(p@));
        let ghost pv = strings_view(page@);
        pages.push(page);
        assert(pages@.map_values(|p: Vec<String>| strings_view(p@)) =~= before.push(pv));
        if rest <= w {
            assert(pv =~= tail);
            assert(all.skip(end as int) =~= Seq::<Seq<char>>::empty());
            assert(before + seq![tail] =~= before.push(pv) + spec_chunks(
                all.skip(end as int),
                w as nat,
            ));
        } else {
            assert(pv =~= tail.take(w as int));
            assert(tail.skip(w as int) =~= all.skip(end as int));
            assert(before + (seq![tail.take(w as int)] + spec_chunks(tail.skip(w as int), w as nat))
                =~= before.push(pv) + spec_chunks(all.skip(end as int), w as nat));
        }
        start = end;
    }
    proof {
        assert(all.skip(start as int) =~= Seq::<Seq<char>>::empty());
        let m = pages@.map_values(|p: Vec<String>| strings_view(p@));
        assert(m + Seq::<Seq<Seq<char>>>::empty() =~= m);
        assert forall|k: int| 0 <= k < pages@.len() implies strings_view(#[trigger] pages@[k]@)
            == spec_chunks(all, w as nat)[k] by {
            assert(m[k] == strings_view(pages@[k]@));
        }
    }
    pages
}

/// The `Kids` list for `n` pages.
fn kids(n: usize) -> (r: String)
    ensures
        r@ == spec_kids(n as nat),
{
    let mut k = String::new();
    let mut i: usize = 0;
    while i < n
        invariant
            i <= n,
            k@ == spec_kids(i as nat),
        decreases n - i,
    {
        if i > 0 {
            push_str(&mut k, " ");
        }
        let ghost before = k@;
        push_decimal(&mut k, 3 + 2 * (i as u128));
        push_str(&mut k, " 0 R");
        i = i + 1;
        proof {
            if i == 1 {
                assert(k@ =~= spec_kids(1));
            } else {
                assert(k@ =~= spec_kids(i as nat));
            }
        }
    }
    k
}

/// The objects of the document for the given pages.
fn pdf_objects(pages: &Vec<Vec<String>>) -> (r: Vec<String>)
    ensures
        strings_view(r@) == spec_pdf_objects(pages@.map_values(|p: Vec<String>| strings_view(p@))),
{
    let ghost pv = pages@.map_values(|p: Vec<String>| strings_view(p@));
    let np = pages.len();
    let font: u128 = 3 + 2 * (np as u128);
    let mut objects: Vec<String> = Vec::new();
    objects.push(owned("<< /Type /Catalog /Pages 2 0 R >>"));
    let mut pd = owned("<< /Type /Pages /Kids [");
    let k = kids(np);
    push_str(&mut pd, k.as_str());
    push_str(&mut pd, "] /Count ");
    push_decimal(&mut pd, np as u128);
    push_str(&mut pd, " >>");
    objects.push(pd);
    let ghost head = strings_view(objects@);
    assert(head =~= seq!["<< /Type /Catalog /Pages 2 0 R >>"@, spec_pages_dict(np as nat)]);
    let mut p: usize = 0;
    assert(pv.take(0) =~= Seq::<Seq<Seq<char>>>::empty());
    while p < np
        invariant
            np == pages@.len() == pv.len(),
            pv == pages@.map_values(|p: Vec<String>| strings_view(p@)),
            font == 3 + 2 * np,
            p <= np,
            strings_view(objects@) == head + spec_page_objects(pv.take(p as int), font as nat),
        decreases np - p,
    {
        let mut page = owned(
            "<< /Type /Page /Parent 2 0 R /MediaBox [0 0 595 842] /Resources << /Font << /F1 ",
        );
        push_decimal(&mut page, font);
        push_str(&mut page, " 0 R >> >> /Contents ");
        push_decimal(&mut page, 3 + 2 * (p as u128) + 1);
        push_str(&mut page, " 0 R >>");
        let stream = pdf_page_stream(pages[p].as_slice());
        let mut content = owned("<< /Length ");
        let stream_bytes = stream.as_str().as_bytes();
        push_decimal(&mut content, stream_bytes.len() as u128);
        push_str(&mut content, " >>\nstream\n");
        push_str(&mut content, stream.as_str());
        push_str(&mut content, "endstream");
        let ghost before = strings_view(objects@);
        assert(page@ =~= spec_page_dict(p as nat, font as nat));
        assert(pv[p as int] == strings_view(pages@[p as int]@));
        assert(content@ =~= spec_content_obj(spec_page_stream(pv[p as int])));
        objects.push(page);
        objects.push(content);
        assert(strings_view(objects@) =~= before + seq![
            spec_page_dict(p as nat, font as nat),
            spec_content_obj(spec_page_stream(pv[p as int])),
        ]);
        assert(pv.take(p + 1).drop_last() =~= pv.take(p as int));
        assert(pv.take(p + 1).last() == pv[p as int]);
        p = p + 1;
        assert(strings_view(objects@) =~= head + spec_page_objects(pv.take(p as int), font as nat));
    }
    objects.push(owned("<< /Type /Font /Subtype /Type1 /BaseFont /Helvetica >>"));
    assert(pv.take(np as int) =~= pv);
    assert(strings_view(objects@) =~= spec_pdf_objects(pv));
    objects
}

/// The bytes of a PDF file holding the given objects.
fn pdf_bytes(objects: &Vec<String>) -> (r: Vec<u8>)
    ensures
        r@ == spec_pdf_bytes(strings_view(objects@)),
{
    let ghost ov = strings_view(objects@);
    let mut bytes: Vec<u8> = Vec::new();
    bytes.push(0x25);
    bytes.push(0x50);
    bytes.push(0x44);
    bytes.push(0x46);
    bytes.push(0x2d);
    bytes.push(0x31);
    bytes.push(0x2e);
    bytes.push(0x34);
    bytes.push(0x0a);
    bytes.push(0x25);
    bytes.push(0xe2);
    bytes.push(0xe3);
    bytes.push(0xcf);
    bytes.push(0xd3);
    bytes.push(0x0a);
    assert(bytes@ =~= pdf_header());
    assert(ov.take(0) =~= Seq::<Seq<char>>::empty());
    let n = objects.len();
    let mut offsets: Vec<usize> = Vec::new();
    let mut idx: usize = 0;
    while idx < n
        invariant
            n == objects@.len() == ov.len(),
            ov == strings_view(objects@),
            idx <= n,
            bytes@ == spec_body(ov.take(idx as int)),
            offsets@.len() == idx,
            forall|k: int| 0 <= k < idx ==> #[trigger] offsets@[k] == spec_body(ov.take(k)).len(),
        decreases n - idx,
    {
        offsets.push(bytes.len());
        let mut entry = String::new();
        push_decimal(&mut entry, idx as u128 + 1);
        push_str(&mut entry, " 0 obj\n");
        push_str(&mut entry, objects[idx].as_str());
        push_str(&mut entry, "\nendobj\n");
        assert(entry@ =~= spec_entry(idx as nat, ov[idx as int]));
        push_utf8(&mut bytes, entry.as_str());
        assert(ov.take(idx + 1).drop_last() =~= ov.take(idx as int));
        assert(ov.take(idx + 1).last() == ov[idx as int]);
        idx = idx + 1;
    }
    assert(ov.take(n as int) =~= ov);
    let xref_offset = bytes.len();
    let ghost body = bytes@;
    let mut x = owned("xref\n0 ");
    push_decimal(&mut x, n as u128 + 1);
    push_str(&mut x, "\n");
    push_utf8(&mut bytes, x.as_str());
    push_utf8(&mut bytes, "0000000000 65535 f \n");
    let ghost before_rows = bytes@;
    let mut k: usize = 0;
    while k < n
        invariant
            n == objects@.len() == ov.len(),
            ov == strings_view(objects@),
            k <= n,
            offsets@.len() == n,
            forall|j: int| 0 <= j < n ==> #[trigger] offsets@[j] == spec_body(ov.take(j)).len(),
            bytes@ == before_rows + spec_xref_rows(ov, k as nat),
        decreases n - k,
    {
        let mut row = String::new();
        push_zero_padded(&mut row, offsets[k] as u128, 10);
        push_str(&mut row, " 00000 n \n");
        assert(row@ =~= spec_zero_padded(spec_body(ov.take(k as int)).len(), 10) + " 00000 n \n"@);
        push_utf8(&mut bytes, row.as_str());
        k = k + 1;
        assert(bytes@ =~= before_rows + spec_xref_rows(ov, k as nat));
    }
    let mut t = owned("trailer\n<< /Size ");
    push_decimal(&mut t, n as u128 + 1);
    push_str(&mut t, " /Root 1 0 R >>\nstartxref\n");
    push_decimal(&mut t, xref_offset as u128);
    push_str(&mut t, "\n%%EOF\n");
    push_utf8(&mut bytes, t.as_str());
    assert(bytes@ =~= spec_pdf_bytes(ov));
    bytes
}

/// The PDF file of a report: its lines (title, generation time, model
/// endpoint, the summary wrapped at 72 characters) on pages of 45 lines,
/// each line written as UTF-16 text.
pub fn report_pdf(report: &Report) -> (r: Vec<u8>)
    ensures
        r@ == spec_report_pdf(*report),
{
    let lines = pdf_lines(report);
    let pages = paginate(&lines);
    let objects = pdf_objects(&pages);
    assert(pages@.map_values(|p: Vec<String>| strings_view(p@)) =~= spec_chunks(
        spec_pdf_lines(*report),
        PDF_LINES_PER_PAGE as nat,
    ));
    pdf_bytes(&objects)
}

} // verus!
