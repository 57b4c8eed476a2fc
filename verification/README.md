# vm-curator core

The decision logic of vm-curator, a terminal UI for QEMU/KVM virtual
machines, written in Verus. The functions in `src/` carry contracts that
Verus proves, except a few small trusted wrappers around calls into std
and ratatui (marked `#[verifier::external_body]`), whose contracts restate
what those libraries document.

- `src/groups.rs` — user-defined VM groups: pruning stale members and the
  default assignment of VMs to their OS-category group.
- `src/wizard_types.rs`, `src/create_wizard.rs` — the state types of the
  creation and import wizards, NIC backend cycling, disk formats, folder
  names and the checks that gate each wizard step.
- `src/network_settings.rs`, `src/network_view.rs` — the Network Settings
  screen: how each key changes its state, and what it shows.
- `src/management.rs`, `src/management_view.rs` — the VM management menu
  and its dialogs.
- `src/main_menu.rs`, `src/groups_screen.rs`, `src/info_panel.rs`,
  `src/config_summary.rs`, `src/text.rs` — the main menu's help bar and
  info panel, the Groups screens, and word-wrap line counting.
- `src/chars.rs`, `src/seqs.rs` — string and sequence helpers.

`app/` holds what stays outside the proofs: reading and writing the groups
file, the creation wizard state (it carries a float), terminal key and
layout conversions, the Network Settings screen's handling of random and
typed MAC addresses, and drawing the screens with ratatui.
