# seisbox

The verified core of SeisBox, a toolkit for picking seismic phases and
fetching seismological data, written in Verus.

- `src/` is the library, every function proved against its contract:
  - `picking`, `pick_file`: phase picks (at most one per phase) and the
    text format of pick files;
  - `paths`, `file_tree`, `order`, `selection`: which files are seismic or
    pick files, the explorer tree, its ordering, and the file selection;
  - `seismic`, `navigation`: reader choice, miniSEED channel grouping and
    trace names, and stepping through the shown traces;
  - `raster`: drawing lines, text and crops on RGBA images;
  - `catalog`, `events`, `calendar`: ISC bulletin requests and replies,
    event rows and magnitudes, and the calendar arithmetic of requests;
  - `fdsn`: FDSN providers, queries, station listings and download replies;
  - `coulomb`, `stress_runs`: the line structure of Coulomb `.inp` files
    and receiver tables, which calculation a run performs and where
    optimized results go;
  - `bvalue_input`: the columns of earthquake tables and the axes of the
    b-value map;
  - `hvsr`: which traces are the three components, and SESAME verdicts;
  - `shortcuts`, `viewer`, `plot_layout`: keyboard shortcuts, how the
    viewer reacts to them (two-press cut and zoom, filters, spectrogram
    requests), plot titles, sample buckets and spectrogram frames;
  - `map_drag`: drawing boxes, lines and zoom windows on the map;
  - `text`: text helpers.
- `tests/` exercises the library on concrete values.
- `app/` is a command-line front end: file and network I/O and the
  floating-point parts (curves, coordinates, figures, spectrograms,
  H/V ratios, deformation and Coulomb stress).
