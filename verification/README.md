# noc_lens

The verified core of a network operations tool that keeps an inventory of
network devices, queries them over SSH, stores their status history, runs
scheduled inspections and asks an OpenAI-compatible endpoint for summary
reports.

- `src/` is the library, verified with Verus: validation and normalisation of
  devices, groups and schedules, the trigger of a job (fixed interval or daily
  cron expression), the parsing of
  device output into metrics, the bookkeeping of SSH sessions and queries, CSV
  import planning, password encryption and master key handling, AI endpoint
  and settings checks, and the Markdown and PDF export of reports.
- `tests/` exercises the library with the real outside crates linked.
- `app/` is the program around it: the SQLite database, the key store, russh
  sessions, the HTTP calls to the AI endpoint, the cron scheduler, and the
  commands the user interface calls.
