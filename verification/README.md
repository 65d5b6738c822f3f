# rsk-keys

The logic of a touchless security-key panel that is driven by one physical
key: the ambient status page, the confirm page, and a paged menu of the
device's own metadata with a small settings section. The library is written in
Verus; each function states what it does in its contract, and the properties
that span functions are stated and proved as `law_*` proof functions beside
them.

- `src/` is the verified library.
  - `text`, `row`: printable-ASCII clamping, number formatting, stored rows.
  - `render`: page layouts as lists of paint operations, with measured text
    widths as arguments.
  - `applets`, `menu`, `capture`, `detail`, `pages`: what the applets report,
    the row arena, the capture that fills it, and the pages read from it.
  - `menu_conf`, `settings`: the persisted record, the values in force, and
    what a confirmed option changes.
  - `gesture`, `entry`, `browse`: the three-gesture recognizer, when the menu
    opens, and the browse state machine.
  - `status`: pacing of the status animation and of the key-generation page,
    and the answers to presence requests.
  - `ccc`: the default PIV card capability container.
- `tests/` runs the library on concrete values; `render.rs` paints the layouts
  on a recording panel.
- `app/` is the board half: it samples the key and the host, reads the applets,
  keeps the settings record and paints.

One fact is taken on trust, in `src/text.rs`: that `core::str::from_utf8`
accepts exactly the well-formed UTF-8 and hands its bytes back unchanged.
