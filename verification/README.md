# rvn

A terminal browser for Python virtual environments: it lists the
environments found under the current directory, shows the details of the
selected one (Python version, executable, installed packages, disk
footprint), opens a shell inside it, and deletes it after confirmation.

The library in `src/` holds the browser's logic, verified with Verus:

- `app`: the browser state, the key map (`App::step` / `App::handle_key`),
  navigation, deletion and status messages;
- `scanner`: the decision at each step of the search for environments,
  parsing `pyvenv.cfg`, labelling and sorting installed
  packages, picking the library directory, summing file sizes and keeping
  the newest size request;
- `display`: sizes in binary units and the texts of the details pane and
  status bar;
- `layout`: where the two panes and the confirmation popup go (ratatui's
  layout solver);
- `help`: the key hints of each screen;
- `shell`: the shell, `PATH` and report of an activation;
- `text`, `order`: trimming, splitting, decimal digits and the order of
  package names.

`app/` is the terminal program around it: disk access, the size worker,
terminal set-up and drawing.
