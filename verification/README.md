# paris_transit

Real-time public transit data for the greater Paris region, as SIRI Lite
estimated timetables give it, joined with the static line and stop
referentials and pushed to the browsers that watch a page.

- `src/` is the verified library (Verus):
  - `siri`: the SIRI values the library reads, and the vehicle journeys of a
    service delivery;
  - `objects`: line and stop references, estimated calls, vehicle journeys,
    lines and the transit data;
  - `order`: the order of calls by reference time and their stable sort;
  - `referential`: the line and stop referentials keyed by SIRI names;
  - `join`: joining the journeys with the referentials;
  - `actors`: the decisions of the data store, the central dispatch and the
    browser sessions;
  - `paris_time`: the `to_paris_time` template filter;
  - `text`: joining names and replacing patterns.
- `app/` is the actix web application around it: HTTP routes, websockets,
  the fetchers of SIRI and GTFS data, CSV and JSON reading, Tera templates.
- `tests/` exercises the library.
