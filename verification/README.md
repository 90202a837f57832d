# build_watcher

A small build server. It runs a build in stages when it is asked to, shows how the build goes, and
serves what the last build made, with a banner on its pages.

`src/` is the library, verified with Verus:

- `utils`: build ids and the names of log files; `numeral`: the text form of an id.
- `config`: the configuration; `paths`: paths as text, as Unix has them.
- `build::events`, `build::log`: events, the log of a build, how it is followed and where it is kept.
- `build::run`: one run of a build, as a machine that is told how each task went.
- `build::manager`: one build at a time, and the last one that finished.
- `clock`: moments on the local clock; `text`: numerals, lists and the search for a marker.
- `pages`: the page that shows a build, and the banner; `serve`: what requests are answered.
- `state`: the state of a server, which is set up once.

The names of proof functions that state what the library promises start with `law_`.

`app/` is the program around the library: it reads the configuration, starts programs, moves events
over channels and answers HTTP requests. It is not verified.
