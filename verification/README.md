# nasty

Configuration, policy and rendering logic of the NASty storage engine,
written in Verus: every function in `src/` carries a contract that Verus
proves.

## Layout

- `src/` — the verified library.
  - `text.rs`, `scan.rs`, `sorting.rs`: string and sequence helpers with
    their models (trimming, splitting, `str::lines`, number parsing, the
    string order and a stable sort).
  - `rpc_policy.rs`, `backup.rs`: which role may call which RPC method,
    what is audited, and the backup profile access rules.
  - `dependents.rs`, `usage.rs`: what depends on a filesystem, subvolume or
    block device, from the state the services report.
  - `smb.rs`, `smb_accounts.rs`: SMB share validation, the portal's share
    policy, `ksmbd.conf` rendering, and the account register and command
    output parsing.
  - `rclone.rs`: FTP/SFTP/S3 shares, settings, the rclone config and the
    serve script.
  - `passthrough.rs`: vfio-pci claims, the legacy pair mirror and the udev
    rules.
  - `protocol.rs`: protocol names, units, persisted state and restore.
  - `update.rs`: release channels, version comparison, snapshots and the
    update unit's state.
  - `alerts.rs`: alert coverage, bcachefs health and reconcile stall
    detection.
  - `ids.rs`: share identifiers (a v4 UUID from the `uuid` crate).
- `tests/` — tests of the library.
- `app/` — the I/O around the library: state files, systemd, account
  commands, sysfs and the GitHub releases API. It reads what the library
  needs, passes it in as plain values and carries out the result.

Each module states its laws as public proof functions named `law_*`.
