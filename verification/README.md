# fileman

The logic of a graphical file manager, written and verified in Verus.

The library decides; it draws nothing and reads nothing. What the window, its
views, its dialogs and its jobs do is stated as functions from plain values to
plain values, or as state machines whose every step has a contract: captions that
fit their tiles, breadcrumbs and typed paths, the thumbnail cache, selection and
filtering, tabs and navigation, search, drag and drop, deleting and restoring,
archives, mounting drives.

## Layout

- `src/` is the library. Each module states its model as spec functions, proves
  its functions against it, and gathers the laws that hold across functions in
  public proof functions named `law_…`. The calls into the standard library and
  into other crates that Verus takes on trust stand in `src/outside.rs`.
- `tests/` runs the library on concrete values, one file for each part.
- `app/` is the window itself: GTK and libadwaita widgets that hand the library
  what happened and show what it decided. Settings, the file system, drives and
  the network come in through the `Backend` trait in `app/backend.rs`.

Colours of the capacity ring, rates of running jobs and pointer distances are
floating point and stay in `app/`.
