# smc_sensors

Sensor readout for Apple machines, verified with Verus.

- `src/` is the library. `fourcc`, `numeric` and `text` decode codes, values and labels;
  `packet` and `wire` are the request packet of the `AppleSMC` driver and its 80-byte form;
  `connection` and `sensors` are the procedures that open the driver, list its numeric keys and
  read a set of them; `runs` states and proves what these come to when run to their end;
  `units`, `energy` and `meter` are the units, the IOReport energy rollup and its measuring
  loop.
- `app/` performs the calls into IOKit, CoreFoundation and IOReport and turns the library's
  exact values into floats.
- `tests/` runs the library against a driver in memory.

A procedure is a state that names the next exchange and a transition on its reply, so that the
library holds every decision and the caller only carries packets.
