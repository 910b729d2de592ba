# hass_backend

A backend between Home Assistant and an energy optimisation service. It sets a
time line, has the service optimise a model, waits for the job, and drives the
entities of Home Assistant with the control signals of the outcome. It also
fetches weather forecasts and electricity prices, and answers its web interface.

- `src/` is the library, verified with Verus. It holds every decision: which
  entity a signal speaks of (`home_assistant`), what replies mean (`graphql`),
  how jobs and cycles go on (`job`, `cycle`), what is sent in which step and
  when the next one follows (`schedule`, `schedule_run`), what is remembered and
  answered (`feed`, `backend`, `http`), and how failures are worded
  (`failure_text`), but for the reasons that the service lists. Functions named
  `law_...` state what holds of several of them together.
- `app/` is the program around it: the server, the requests, the timers, the log,
  the sums of floating-point values, and the text of the reasons that the service
  lists, which may hold floating-point values too.
- `tests/` runs the library.

Documents are `json::Json` in the library; `app/convert.rs` turns them into
documents of `serde_json` and back. A floating-point number is held as its bit
pattern.

The program reads the GraphQL operations from `operations.graphql` in its working
directory.
