# cosmic_session

The state of a COSMIC desktop session, followed over Wayland, and what it takes to bring its
applications back. The library under `src/` is verified with Verus; `app/` connects it to the
compositor, the file system and the processes.

- `wayland`, `session_laws`: the live state of a session, event by event, and what holds of it
- `dump`, `report`, `dump_laws`: the state that a dump gathers, and the report on it
- `sync`: the steps by which a client gets in step with the compositor
- `event`, `words`: what the compositor tells, and the arrays in which it tells numbers
- `launch`: browsers and their profiles, and the programs that launches run
- `filepath`: paths of files, compared by their components
- `desktop`, `entry`, `desktop_laws`: the search for the desktop entry file of an application
- `model`: what is kept of a session when it is saved
- `table`, `text`, `order`, `show`: maps, lists of texts, sorting, and how values are written

What the library believes of outside code without proof stands in the functions marked
`external_body` and in the `assume_specification` items, each with a comment that says what is
believed.
