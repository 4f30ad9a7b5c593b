//! The read-only command that gives each metric on each brand.
use vstd::prelude::*;

use crate::models::Brand;
use crate::text::owned;

verus! {

/// The metrics queried, in their fixed order.
pub open spec fn spec_metric(i: int) -> Seq<char> {
    if i == 0 {
        "cpu"@
    } else if i == 1 {
        "memory"@
    } else if i == 2 {
        "module"@
    } else if i == 3 {
        "interface"@
    } else if i == 4 {
        "loading"@
    } else {
        "traffic"@
    }
}

/// The number of metrics.
pub const METRIC_COUNT: usize = 6;

/// The command that gives metric `i` on a brand.
pub open spec fn spec_command(brand: Brand, i: int) -> Seq<char> {
    match brand {
        Brand::Cisco => if i == 0 {
            "show processes cpu | include CPU utilization"@
        } else if i == 1 {
            "show memory statistics"@
        } else if i == 2 {
            "show module"@
        } else if i == 3 {
            "show ip interface brief"@
        } else if i == 4 {
            "show processes cpu | include CPU utilization"@
        } else {
            "show interfaces counters"@
        },
        Brand::Aruba => if i == 0 {
            "show system resource-utilization"@
        } else if i == 1 {
            "show system resource-utilization"@
        } else if i == 2 {
            "show modules"@
        } else if i == 3 {
            "show interface brief"@
        } else if i == 4 {
            "show system resource-utilization"@
        } else {
            "show interface"@
        },
        Brand::FortigateNgfw => if i == 0 {
            "get system performance status"@
        } else if i == 1 {
            "get system performance status"@
        } else if i == 2 {
            "get system status"@
        } else if i == 3 {
            "get system interface"@
        } else if i == 4 {
            "get system performance status"@
        } else {
            "get system interface"@
        },
        Brand::PaloAlto => if i == 0 {
            "show system resources"@
        } else if i == 1 {
            "show system resources"@
        } else if i == 2 {
            "show system environmentals"@
        } else if i == 3 {
            "show interface all"@
        } else if i == 4 {
            "show system resources"@
        } else {
            "show counter interface all"@
        },
    }
}

fn metric(i: usize) -> (r: &'static str)
    requires
        i < METRIC_COUNT,
    ensures
        r@ == spec_metric(i as int),
{
    if i == 0 {
        "cpu"
    } else if i == 1 {
        "memory"
    } else if i == 2 {
        "module"
    } else if i == 3 {
        "interface"
    } else if i == 4 {
        "loading"
    } else {
        "traffic"
    }
}

fn command(brand: Brand, i: usize) -> (r: &'static str)
    requires
        i < METRIC_COUNT,
    ensures
        r@ == spec_command(brand, i as int),
{
    match brand {
        Brand::Cisco => if i == 0 {
            "show processes cpu | include CPU utilization"
        } else if i == 1 {
            "show memory statistics"
        } else if i == 2 {
            "show module"
        } else if i == 3 {
            "show ip interface brief"
        } else if i == 4 {
            "show processes cpu | include CPU utilization"
        } else {
            "show interfaces counters"
        },
        Brand::Aruba => if i == 0 {
            "show system resource-utilization"
        } else if i == 1 {
            "show system resource-utilization"
        } else if i == 2 {
            "show modules"
        } else if i == 3 {
            "show interface brief"
        } else if i == 4 {
            "show system resource-utilization"
        } else {
            "show interface"
        },
        Brand::FortigateNgfw => if i == 0 {
            "get system performance status"
        } else if i == 1 {
            "get system performance status"
        } else if i == 2 {
            "get system status"
        } else if i == 3 {
            "get system interface"
        } else if i == 4 {
            "get system performance status"
        } else {
            "get system interface"
        },
        Brand::PaloAlto => if i == 0 {
            "show system resources"
        } else if i == 1 {
            "show system resources"
        } else if i == 2 {
            "show system environmentals"
        } else if i == 3 {
            "show interface all"
        } else if i == 4 {
            "show system resources"
        } else {
            "show counter interface all"
        },
    }
}

/// The `(metric, command)` pairs for a brand: every brand gets all six
/// metrics, in the fixed order, each with its brand's command.
pub fn for_brand(brand: Brand) -> (r: Vec<(&'static str, String)>)
    ensures
        r@.len() == METRIC_COUNT,
        forall|i: int|
            0 <= i < METRIC_COUNT ==> (#[trigger] r@[i]).0@ == spec_metric(i) && r@[i].1@
                == spec_command(brand, i),
{
    let mut r: Vec<(&'static str, String)> = Vec::new();
    let mut i: usize = 0;
    while i < METRIC_COUNT
        invariant
            i <= METRIC_COUNT,
            r@.len() == i,
            forall|k: int|
                0 <= k < i ==> (#[trigger] r@[k]).0@ == spec_metric(k) && r@[k].1@
                    == spec_command(brand, k),
        decreases METRIC_COUNT - i,
    {
        r.push((metric(i), owned(command(brand, i))));
        i = i + 1;
    }
    r
}

// ---------------------------------------------------------------------------
// What the commands are
// ---------------------------------------------------------------------------
/// `c` contains `w`.
pub open spec fn mentions(c: Seq<char>, w: Seq<char>) -> bool {
    exists|i: int| 0 <= i && i + w.len() <= c.len() && #[trigger] c.subrange(i, i + w.len()) == w
}

/// The command for metric `i` names what it reads: the metric itself
/// (`cpu`, `memory`, `module`, `interface`, a `counter` for traffic) or the
/// device's resource, performance or status summary that reports it.
pub open spec fn names_subject(i: int, c: Seq<char>) -> bool {
    if i == 0 || i == 4 {
        mentions(c, "cpu"@) || mentions(c, "resource"@) || mentions(c, "performance"@)
    } else if i == 1 {
        mentions(c, "memory"@) || mentions(c, "resource"@) || mentions(c, "performance"@)
    } else if i == 2 {
        mentions(c, "module"@) || mentions(c, "status"@) || mentions(c, "environmental"@)
    } else if i == 3 {
        mentions(c, "interface"@)
    } else {
        mentions(c, "counter"@) || mentions(c, "interface"@)
    }
}

/// A read-only query: a `show` or a `get` command.
pub open spec fn read_only(c: Seq<char>) -> bool {
    (c.len() >= 5 && c.subrange(0, 5) == "show "@) || (c.len() >= 4 && c.subrange(0, 4)
        == "get "@)
}

proof fn lemma_mentions_at(c: Seq<char>, w: Seq<char>, i: int)
    requires
        0 <= i && i + w.len() <= c.len(),
        c.subrange(i, i + w.len()) == w,
    ensures
        mentions(c, w),
{
}

/// Every command is a read-only query (`show` or `get`), and the command of
/// each metric names what it reads, so that no metric is read from another
/// metric's output (Cisco's memory, for one, is read from its memory
/// statistics, not from its CPU line).
pub proof fn lemma_commands_read_their_subject(brand: Brand, i: int)
    requires
        0 <= i < METRIC_COUNT,
    ensures
        read_only(spec_command(brand, i)),
        names_subject(i, spec_command(brand, i)),
{
    reveal_strlit("show ");
    reveal_strlit("get ");
    reveal_strlit("counter");
    reveal_strlit("cpu");
    reveal_strlit("environmental");
    reveal_strlit("interface");
    reveal_strlit("memory");
    reveal_strlit("module");
    reveal_strlit("performance");
    reveal_strlit("resource");
    reveal_strlit("status");
    if brand == Brand::Cisco {
        if i == 0 {
            reveal_strlit("show processes cpu | include CPU utilization");
            assert(spec_command(brand, i).subrange(0, 5) =~= "show "@);
            assert(spec_command(brand, i).subrange(15, 18) =~= "cpu"@);
            lemma_mentions_at(spec_command(brand, i), "cpu"@, 15);
        }
        if i == 1 {
            reveal_strlit("show memory statistics");
            assert(spec_command(brand, i).subrange(0, 5) =~= "show "@);
            assert(spec_command(brand, i).subrange(5, 11) =~= "memory"@);
            lemma_mentions_at(spec_command(brand, i), "memory"@, 5);
        }
        if i == 2 {
            reveal_strlit("show module");
            assert(spec_command(brand, i).subrange(0, 5) =~= "show "@);
            assert(spec_command(brand, i).subrange(5, 11) =~= "module"@);
            lemma_mentions_at(spec_command(brand, i), "module"@, 5);
        }
        if i == 3 {
            reveal_strlit("show ip interface brief");
            assert(spec_command(brand, i).subrange(0, 5) =~= "show "@);
            assert(spec_command(brand, i).subrange(8, 17) =~= "interface"@);
            lemma_mentions_at(spec_command(brand, i), "interface"@, 8);
        }
        if i == 4 {
            reveal_strlit("show processes cpu | include CPU utilization");
            assert(spec_command(brand, i).subrange(0, 5) =~= "show "@);
            assert(spec_command(brand, i).subrange(15, 18) =~= "cpu"@);
            lemma_mentions_at(spec_command(brand, i), "cpu"@, 15);
        }
        if i == 5 {
            reveal_strlit("show interfaces counters");
            assert(spec_command(brand, i).subrange(0, 5) =~= "show "@);
            assert(spec_command(brand, i).subrange(16, 23) =~= "counter"@);
            lemma_mentions_at(spec_command(brand, i), "counter"@, 16);
        }
    }
    if brand == Brand::Aruba {
        if i == 0 {
            reveal_strlit("show system resource-utilization");
            assert(spec_command(brand, i).subrange(0, 5) =~= "show "@);
            assert(spec_command(brand, i).subrange(12, 20) =~= "resource"@);
            lemma_mentions_at(spec_command(brand, i), "resource"@, 12);
        }
        if i == 1 {
            reveal_strlit("show system resource-utilization");
            assert(spec_command(brand, i).subrange(0, 5) =~= "show "@);
            assert(spec_command(brand, i).subrange(12, 20) =~= "resource"@);
            lemma_mentions_at(spec_command(brand, i), "resource"@, 12);
        }
        if i == 2 {
            reveal_strlit("show modules");
            assert(spec_command(brand, i).subrange(0, 5) =~= "show "@);
            assert(spec_command(brand, i).subrange(5, 11) =~= "module"@);
            lemma_mentions_at(spec_command(brand, i), "module"@, 5);
        }
        if i == 3 {
            reveal_strlit("show interface brief");
            assert(spec_command(brand, i).subrange(0, 5) =~= "show "@);
            assert(spec_command(brand, i).subrange(5, 14) =~= "interface"@);
            lemma_mentions_at(spec_command(brand, i), "interface"@, 5);
        }
        if i == 4 {
            reveal_strlit("show system resource-utilization");
            assert(spec_command(brand, i).subrange(0, 5) =~= "show "@);
            assert(spec_command(brand, i).subrange(12, 20) =~= "resource"@);
            lemma_mentions_at(spec_command(brand, i), "resource"@, 12);
        }
        if i == 5 {
            reveal_strlit("show interface");
            assert(spec_command(brand, i).subrange(0, 5) =~= "show "@);
            assert(spec_command(brand, i).subrange(5, 14) =~= "interface"@);
            lemma_mentions_at(spec_command(brand, i), "interface"@, 5);
        }
    }
    if brand == Brand::FortigateNgfw {
        if i == 0 {
            reveal_strlit("get system performance status");
            assert(spec_command(brand, i).subrange(0, 4) =~= "get "@);
            assert(spec_command(brand, i).subrange(11, 22) =~= "performance"@);
            lemma_mentions_at(spec_command(brand, i), "performance"@, 11);
        }
        if i == 1 {
            reveal_strlit("get system performance status");
            assert(spec_command(brand, i).subrange(0, 4) =~= "get "@);
            assert(spec_command(brand, i).subrange(11, 22) =~= "performance"@);
            lemma_mentions_at(spec_command(brand, i), "performance"@, 11);
        }
        if i == 2 {
            reveal_strlit("get system status");
            assert(spec_command(brand, i).subrange(0, 4) =~= "get "@);
            assert(spec_command(brand, i).subrange(11, 17) =~= "status"@);
            lemma_mentions_at(spec_command(brand, i), "status"@, 11);
        }
        if i == 3 {
            reveal_strlit("get system interface");
            assert(spec_command(brand, i).subrange(0, 4) =~= "get "@);
            assert(spec_command(brand, i).subrange(11, 20) =~= "interface"@);
            lemma_mentions_at(spec_command(brand, i), "interface"@, 11);
        }
        if i == 4 {
            reveal_strlit("get system performance status");
            assert(spec_command(brand, i).subrange(0, 4) =~= "get "@);
            assert(spec_command(brand, i).subrange(11, 22) =~= "performance"@);
            lemma_mentions_at(spec_command(brand, i), "performance"@, 11);
        }
        if i == 5 {
            reveal_strlit("get system interface");
            assert(spec_command(brand, i).subrange(0, 4) =~= "get "@);
            assert(spec_command(brand, i).subrange(11, 20) =~= "interface"@);
            lemma_mentions_at(spec_command(brand, i), "interface"@, 11);
        }
    }
    if brand == Brand::PaloAlto {
        if i == 0 {
            reveal_strlit("show system resources");
            assert(spec_command(brand, i).subrange(0, 5) =~= "show "@);
            assert(spec_command(brand, i).subrange(12, 20) =~= "resource"@);
            lemma_mentions_at(spec_command(brand, i), "resource"@, 12);
        }
        if i == 1 {
            reveal_strlit("show system resources");
            assert(spec_command(brand, i).subrange(0, 5) =~= "show "@);
            assert(spec_command(brand, i).subrange(12, 20) =~= "resource"@);
            lemma_mentions_at(spec_command(brand, i), "resource"@, 12);
        }
        if i == 2 {
            reveal_strlit("show system environmentals");
            assert(spec_command(brand, i).subrange(0, 5) =~= "show "@);
            assert(spec_command(brand, i).subrange(12, 25) =~= "environmental"@);
            lemma_mentions_at(spec_command(brand, i), "environmental"@, 12);
        }
        if i == 3 {
            reveal_strlit("show interface all");
            assert(spec_command(brand, i).subrange(0, 5) =~= "show "@);
            assert(spec_command(brand, i).subrange(5, 14) =~= "interface"@);
            lemma_mentions_at(spec_command(brand, i), "interface"@, 5);
        }
        if i == 4 {
            reveal_strlit("show system resources");
            assert(spec_command(brand, i).subrange(0, 5) =~= "show "@);
            assert(spec_command(brand, i).subrange(12, 20) =~= "resource"@);
            lemma_mentions_at(spec_command(brand, i), "resource"@, 12);
        }
        if i == 5 {
            reveal_strlit("show counter interface all");
            assert(spec_command(brand, i).subrange(0, 5) =~= "show "@);
            assert(spec_command(brand, i).subrange(5, 12) =~= "counter"@);
            lemma_mentions_at(spec_command(brand, i), "counter"@, 5);
        }
    }
}

/// The brand-command table: for each brand, the commands of cpu, memory,
/// module, interface, loading and traffic, in that order.
pub open spec fn brand_command_table(brand: Brand) -> Seq<Seq<char>> {
    match brand {
        Brand::Cisco => seq![
            "show processes cpu | include CPU utilization"@,
            "show memory statistics"@,
            "show module"@,
            "show ip interface brief"@,
            "show processes cpu | include CPU utilization"@,
            "show interfaces counters"@,
        ],
        Brand::Aruba => seq![
            "show system resource-utilization"@,
            "show system resource-utilization"@,
            "show modules"@,
            "show interface brief"@,
            "show system resource-utilization"@,
            "show interface"@,
        ],
        Brand::FortigateNgfw => seq![
            "get system performance status"@,
            "get system performance status"@,
            "get system status"@,
            "get system interface"@,
            "get system performance status"@,
            "get system interface"@,
        ],
        Brand::PaloAlto => seq![
            "show system resources"@,
            "show system resources"@,
            "show system environmentals"@,
            "show interface all"@,
            "show system resources"@,
            "show counter interface all"@,
        ],
    }
}

/// Each brand's commands are those of the brand-command table, metric by
/// metric.
pub proof fn lemma_commands_follow_table(brand: Brand, i: int)
    requires
        0 <= i < METRIC_COUNT,
    ensures
        spec_command(brand, i) == brand_command_table(brand)[i],
{
}


} // verus!
