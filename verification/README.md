# hyprcap

A small screen recorder for Hyprland around `wf-recorder` and `slurp`: a region,
one monitor, or two monitors in one video, driven from the command line or a small
window.

`src/` is the library, verified with Verus. It decides; it touches no file, socket or
process. Where a decision needs one, the caller is asked for it: the recorder hands
back a `Step`, the session a `Work`, and the answer is handed in.

| Modules | What they hold |
|---|---|
| `recorder`, `session`, `both`, `reap`, `trace` | the recorder, its states, and the calls it makes of its ports |
| `session_laws`, `child_laws` | what holds of every run of the recorder, and of the children it starts |
| `server`, `ipc`, `client`, `lifecycle` | requests, responses, and the life of the session server |
| `audio`, `mixer`, `pulse`, `pactl`, `sound` | audio plans, and the routes set up and undone for them |
| `output`, `outputs`, `dual`, `calendar` | monitors, argument lists, file names |
| `config`, `document` | settings |
| `view`, `picker`, `worker`, `cli` | the window and the command line |
| `text`, `path`, `seqs`, `capture`, `ports`, `status` | the ground they stand on |

`app/` is the program around it: processes, sockets, files, JSON, and the window.
`tests/` runs the library against fakes.

Three functions are trusted: reading TOML (`document::toml_entries`), reading JSON
(`outputs::json_records`), and quoting a string (`output::debug_string`).
