# epd_dashboard

An ESP32 home dashboard for a 7.5" (800x480) black-and-white e-paper panel:
a header with date, time and device address, current weather, a 24-hour
forecast chart, a three-day forecast, live S-Bahn departures and the next
Google Calendar events.

The logic of the dashboard is a library verified with Verus (`src/`):

- `text`, `dates`: decimal formatting and parsing, UTF-8 byte slicing,
  weekday and month names, the day before a date, the time stamps sent to
  the timetable and calendar services.
- `xml`: the small tag and attribute scanner used on timetable documents.
- `departures`: the departure board (merging planned and changed trips,
  dropping departed and duplicate trains, sorting, at most six rows), its
  requests and its layout.
- `calendar`: the event list, the OAuth token cycle, the requests and the
  layout.
- `conditions`, `weather`, `header`: the weather blocks, WMO code labels and
  pictograms, the one-request-per-tick forecast slot, the header and the
  loop cadence.
- `draw`, `geometry`: drawing steps, titled panels, rectangles, and the
  byte-aligned windows and buffers of a partial refresh.

Each block turns its state into a list of drawing steps whose contents and
coordinates are stated exactly in its contract.

`app/` is the firmware around the library: Wi-Fi, SNTP, HTTP, JSON decoding,
the panel driver, painting the drawing steps with `embedded-graphics`, and the
floating-point parts (chart scaling, pictogram shapes, rounding of readings).
