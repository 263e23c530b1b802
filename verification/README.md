# oneclient_logic

The decisions of the OneClient launcher's pages and content store, written
in Verus over plain values and proved against their contracts.

- `src/` — the verified library: text helpers (`text`), the cluster grid
  (`grid`), reconciling linked content with the content folders
  (`content_sync`), moving content files between the active and disabled
  folders (`relocation`), the "Add Custom Instance" form (`create_form`), the
  skins page (`skins`), the onboarding account step (`account`), the player
  preview (`player_model`), the embedded fonts (`fonts`) and the cluster card
  outline (`instance_card`).
- `tests/` — the library's tests.
- `app/` — the freya user interface and the file system side of the content
  store, which perform what the library decides.
