# night_light

Night light and gamma control for a Wayland compositor, verified with Verus.

- `src/` is the verified library: the calendar, the schedule and its timer, the
  dialogue with the location service, gamma ramps and tables, the state of the
  gamma control protocol, and the surfaces that gamma reaches.
- `app/` holds what surrounds it: colour and solar computations in floating
  point, the bus, the Wayland objects and the display hardware.
- `tests/` runs the library.

The library never computes with floating point. Temperatures, coordinates and
times in UTC pass through it as type parameters, and functions that compute with
them are handed to it. Outputs and control objects go by numbers.

Times of day are local minutes after midnight, and days are counted from
1970-01-01.
