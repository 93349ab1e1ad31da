# pgrust

The decision logic of a single-process, thread-per-backend database server,
written in Verus. Every function in `src/` maps plain values to plain values
under a proved contract; what has to touch the world (threads, signals, files,
catalogs) is asked for as a returned action, and its outcome is handed back as
an argument.

## Layout

* `pm_state`, `postmaster`, `reload`, `pmsignal`, `reaper`, `serverloop`,
  `server_lap`, `launch_missing`, `service`: the supervisor and its main loop.
* `boot_options`, `boot`, `boot_order`, `boot_report`: the command line and the
  start.
* `backend_type`, `btmask`, `child_kinds`, `launch`: kinds of children and how
  one is started as a thread.
* `wpool`, `standby`, `rtpool`, `rtgang`: the pools of parked and standing
  threads.
* `memwatchdog`: the memory watchdog. `parcopy`: the parallel directory copy.
* `parse_*`: the analysis of the clauses of a query (FROM, joins, GROUP BY,
  ORDER BY, DISTINCT, WINDOW, LIMIT, ON CONFLICT) and the texts of its errors.
* `text`: numbers and trimming.

Properties that hold across functions are public proof functions whose names
start with `law_`.

`tests/` runs the library on concrete values. `app/` holds the threads, system
calls and signal handlers around it.
