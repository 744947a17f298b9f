# ainc-mac

The verified core of the AgentInc Mac app, written in Verus.

- `src/` is the library: navigation and sessions (`model`), the window's
  commands and palette (`shell`, `overlay`), text editing (`input`),
  Markdown (`markdown`, `native_update`), the calendar and its pages
  (`dates`, `calendar`, `calendar_model`, `calendar_page`,
  `calendar_store`), the Dashboard, Smart Home and Automations
  (`dashboard`, `home`, `automations`), the Evee assistant and its
  providers (`assistant`, `evee`, `commands`, `model_menu`, `providers`),
  the local account (`profile`), and shared text helpers (`text`). The
  verified functions state their behaviour in `requires`/`ensures`, and
  the laws that span functions are proof functions named `law_*`. Calls
  into chrono, pulldown-cmark, unicode-segmentation, serde_json and std
  go through small trusted wrappers (`#[verifier::external_body]`) whose
  contracts say what those crates document; where nothing can be
  promised (the current time `now`, the one-for-one event conversions
  that `events_of` collects) a wrapper has no `ensures`. What the Mac's
  clock reads in its own zone is tied to the moment: a zone's offset is
  under a day, so every local reading lies within a day of it.
- `tests/` runs the library on concrete values.
- `app/` is the program around it: the session file, the Mac's calendar
  store, the agent process, and floating-point drawing values.
