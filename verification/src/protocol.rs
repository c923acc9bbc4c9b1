//! Runtime management of storage protocols and system services: which are
//! enabled (persisted state), the systemd units and kernel modules each
//! needs, and the decisions taken when they are restored at boot.
use vstd::prelude::*;

use crate::text::{chars_of, chars_are};

verus! {

#[derive(Clone, Copy, Debug, PartialEq, Eq, Hash, Structural)]
pub enum Protocol {
    Nfs,
    Smb,
    Iscsi,
    Nvmeof,
    Ftp,
    Sftp,
    S3,
    Nut,
    Ssh,
    Avahi,
    Smart,
    RestServer,
}

/// The machine-readable name (`nfs`, `smb`, ..., `rest-server`).
pub open spec fn proto_name(p: Protocol) -> Seq<char> {
    match p {
        Protocol::Nfs => "nfs"@,
        Protocol::Smb => "smb"@,
        Protocol::Iscsi => "iscsi"@,
        Protocol::Nvmeof => "nvmeof"@,
        Protocol::Ftp => "ftp"@,
        Protocol::Sftp => "sftp"@,
        Protocol::S3 => "s3"@,
        Protocol::Nut => "nut"@,
        Protocol::Ssh => "ssh"@,
        Protocol::Avahi => "avahi"@,
        Protocol::Smart => "smart"@,
        Protocol::RestServer => "rest-server"@,
    }
}

/// The human-readable name.
pub open spec fn proto_display_name(p: Protocol) -> Seq<char> {
    match p {
        Protocol::Nfs => "NFS"@,
        Protocol::Smb => "SMB"@,
        Protocol::Iscsi => "iSCSI"@,
        Protocol::Nvmeof => "NVMe-oF"@,
        Protocol::Ftp => "FTP"@,
        Protocol::Sftp => "SFTP"@,
        Protocol::S3 => "S3"@,
        Protocol::Nut => "UPS (NUT)"@,
        Protocol::Ssh => "SSH"@,
        Protocol::Avahi => "mDNS (Avahi)"@,
        Protocol::Smart => "SMART"@,
        Protocol::RestServer => "Backup Server"@,
    }
}

pub open spec fn spec_is_system_service(p: Protocol) -> bool {
    p == Protocol::Nut || p == Protocol::Ssh || p == Protocol::Avahi || p == Protocol::Smart
        || p == Protocol::RestServer
}

/// The protocol a name stands for, if any.
pub open spec fn spec_from_name(name: Seq<char>) -> Option<Protocol> {
    if name == "nfs"@ {
        Some(Protocol::Nfs)
    } else if name == "smb"@ {
        Some(Protocol::Smb)
    } else if name == "iscsi"@ {
        Some(Protocol::Iscsi)
    } else if name == "nvmeof"@ {
        Some(Protocol::Nvmeof)
    } else if name == "ftp"@ {
        Some(Protocol::Ftp)
    } else if name == "sftp"@ {
        Some(Protocol::Sftp)
    } else if name == "s3"@ {
        Some(Protocol::S3)
    } else if name == "nut"@ {
        Some(Protocol::Nut)
    } else if name == "ssh"@ {
        Some(Protocol::Ssh)
    } else if name == "avahi"@ {
        Some(Protocol::Avahi)
    } else if name == "smart"@ {
        Some(Protocol::Smart)
    } else if name == "rest-server"@ {
        Some(Protocol::RestServer)
    } else {
        None
    }
}

/// The systemd units of a protocol. NUT runs a different set of units in
/// local and remote mode; those are given as `nut_units`.
pub open spec fn spec_services(p: Protocol, nut_units: Seq<Seq<char>>) -> Seq<Seq<char>> {
    match p {
        Protocol::Nfs => seq!["nfs-server.service"@],
        Protocol::Smb => seq!["ksmbd.service"@, "wsdd2.service"@],
        Protocol::Iscsi => seq!["target.service"@],
        Protocol::Nvmeof => seq![],
        Protocol::Ftp => seq!["nasty-rclone@ftp.service"@],
        Protocol::Sftp => seq!["nasty-rclone@sftp.service"@],
        Protocol::S3 => seq!["nasty-rclone@s3.service"@],
        Protocol::Nut => nut_units,
        Protocol::Ssh => seq!["sshd.service"@],
        Protocol::Avahi => seq!["avahi-daemon.service"@],
        Protocol::Smart => seq!["smartd.service"@],
        Protocol::RestServer => seq!["nasty-rest-server.service"@],
    }
}

/// Every protocol, in the order they are listed and restored.
pub open spec fn spec_all_protocols() -> Seq<Protocol> {
    seq![Protocol::Nfs, Protocol::Smb, Protocol::Iscsi, Protocol::Nvmeof, Protocol::Ftp, Protocol::Sftp, Protocol::S3, Protocol::Nut, Protocol::Ssh, Protocol::Avahi, Protocol::Smart, Protocol::RestServer] 
}

impl Protocol {
    pub fn all() -> (r: Vec<Protocol>)
        ensures
            r@ == spec_all_protocols(),
    {
        let r = vec![Protocol::Nfs, Protocol::Smb, Protocol::Iscsi, Protocol::Nvmeof, Protocol::Ftp, Protocol::Sftp, Protocol::S3, Protocol::Nut, Protocol::Ssh, Protocol::Avahi, Protocol::Smart, Protocol::RestServer];
        assert(r@ =~= spec_all_protocols());
        r
    }

    /// System-level services (UPS, SSH, mDNS, SMART, backup server) rather
    /// than storage protocols.
    pub fn is_system_service(&self) -> (r: bool)
        ensures
            r == spec_is_system_service(*self),
    {
        match self {
            Protocol::Nut | Protocol::Ssh | Protocol::Avahi | Protocol::Smart
            | Protocol::RestServer => true,
            _ => false,
        }
    }

    pub fn name(&self) -> (r: &'static str)
        ensures
            r@ == proto_name(*self),
    {
        match self {
            Protocol::Nfs => "nfs",
            Protocol::Smb => "smb",
            Protocol::Iscsi => "iscsi",
            Protocol::Nvmeof => "nvmeof",
            Protocol::Ftp => "ftp",
            Protocol::Sftp => "sftp",
            Protocol::S3 => "s3",
            Protocol::Nut => "nut",
            Protocol::Ssh => "ssh",
            Protocol::Avahi => "avahi",
            Protocol::Smart => "smart",
            Protocol::RestServer => "rest-server",
        }
    }

    pub fn display_name(&self) -> (r: &'static str)
        ensures
            r@ == proto_display_name(*self),
    {
        match self {
            Protocol::Nfs => "NFS",
            Protocol::Smb => "SMB",
            Protocol::Iscsi => "iSCSI",
            Protocol::Nvmeof => "NVMe-oF",
            Protocol::Ftp => "FTP",
            Protocol::Sftp => "SFTP",
            Protocol::S3 => "S3",
            Protocol::Nut => "UPS (NUT)",
            Protocol::Ssh => "SSH",
            Protocol::Avahi => "mDNS (Avahi)",
            Protocol::Smart => "SMART",
            Protocol::RestServer => "Backup Server",
        }
    }

    pub fn from_name(name: &str) -> (r: Option<Protocol>)
        ensures
            r == spec_from_name(name@),
    {
        let n = chars_of(name);
        if chars_are(&n, "nfs") {
            Some(Protocol::Nfs)
        } else if chars_are(&n, "smb") {
            Some(Protocol::Smb)
        } else if chars_are(&n, "iscsi") {
            Some(Protocol::Iscsi)
        } else if chars_are(&n, "nvmeof") {
            Some(Protocol::Nvmeof)
        } else if chars_are(&n, "ftp") {
            Some(Protocol::Ftp)
        } else if chars_are(&n, "sftp") {
            Some(Protocol::Sftp)
        } else if chars_are(&n, "s3") {
            Some(Protocol::S3)
        } else if chars_are(&n, "nut") {
            Some(Protocol::Nut)
        } else if chars_are(&n, "ssh") {
            Some(Protocol::Ssh)
        } else if chars_are(&n, "avahi") {
            Some(Protocol::Avahi)
        } else if chars_are(&n, "smart") {
            Some(Protocol::Smart)
        } else if chars_are(&n, "rest-server") {
            Some(Protocol::RestServer)
        } else {
            None
        }
    }

    /// The systemd units to start and stop for this protocol; NUT's depend on
    /// its mode, which the caller reads and passes as `nut_units`.
    pub fn services(&self, nut_units: Vec<&'static str>) -> (r: Vec<&'static str>)
        ensures
            r@.map_values(|u: &str| u@) == spec_services(*self, nut_units@.map_values(|u: &str| u@)),
    {
        let r: Vec<&'static str> = match self {
            Protocol::Nfs => vec!["nfs-server.service"],
            Protocol::Smb => vec!["ksmbd.service", "wsdd2.service"],
            Protocol::Iscsi => vec!["target.service"],
            Protocol::Nvmeof => vec![],
            Protocol::Ftp => vec!["nasty-rclone@ftp.service"],
            Protocol::Sftp => vec!["nasty-rclone@sftp.service"],
            Protocol::S3 => vec!["nasty-rclone@s3.service"],
            Protocol::Nut => nut_units,
            Protocol::Ssh => vec!["sshd.service"],
            Protocol::Avahi => vec!["avahi-daemon.service"],
            Protocol::Smart => vec!["smartd.service"],
            Protocol::RestServer => vec!["nasty-rest-server.service"],
        };
        assert(r@.map_values(|u: &str| u@) =~= spec_services(*self, nut_units@.map_values(|u: &str| u@)));
        r
    }
}
/// Which protocols are enabled, as persisted.
#[derive(Clone, Copy, Debug, PartialEq, Eq, Structural)]
pub struct ProtocolState {
    pub nfs: bool,
    pub smb: bool,
    pub iscsi: bool,
    pub nvmeof: bool,
    pub ftp: bool,
    pub sftp: bool,
    pub s3: bool,
    pub nut: bool,
    pub ssh: bool,
    pub avahi: bool,
    pub smart: bool,
    pub rest_server: bool,
}

/// The value a missing SSH, mDNS or SMART flag takes when state is read.
pub fn default_true() -> (r: bool)
    ensures
        r,
{
    true
}

/// The flag of `p` in `s`.
pub open spec fn spec_get(s: ProtocolState, p: Protocol) -> bool {
    match p {
        Protocol::Nfs => s.nfs,
        Protocol::Smb => s.smb,
        Protocol::Iscsi => s.iscsi,
        Protocol::Nvmeof => s.nvmeof,
        Protocol::Ftp => s.ftp,
        Protocol::Sftp => s.sftp,
        Protocol::S3 => s.s3,
        Protocol::Nut => s.nut,
        Protocol::Ssh => s.ssh,
        Protocol::Avahi => s.avahi,
        Protocol::Smart => s.smart,
        Protocol::RestServer => s.rest_server,
    }
}

impl Default for ProtocolState {
    /// Fresh state: only SSH, mDNS and SMART are enabled.
    fn default() -> (s: Self)
        ensures
            forall|p: Protocol| #[trigger] spec_get(s, p) == (p == Protocol::Ssh || p == Protocol::Avahi
                || p == Protocol::Smart),
    {
        ProtocolState {
            nfs: false,
            smb: false,
            iscsi: false,
            nvmeof: false,
            ftp: false,
            sftp: false,
            s3: false,
            nut: false,
            ssh: true,
            avahi: true,
            smart: true,
            rest_server: false,
        }
    }
}

impl ProtocolState {
    pub fn get(&self, proto: Protocol) -> (r: bool)
        ensures
            r == spec_get(*self, proto),
    {
        match proto {
            Protocol::Nfs => self.nfs,
            Protocol::Smb => self.smb,
            Protocol::Iscsi => self.iscsi,
            Protocol::Nvmeof => self.nvmeof,
            Protocol::Ftp => self.ftp,
            Protocol::Sftp => self.sftp,
            Protocol::S3 => self.s3,
            Protocol::Nut => self.nut,
            Protocol::Ssh => self.ssh,
            Protocol::Avahi => self.avahi,
            Protocol::Smart => self.smart,
            Protocol::RestServer => self.rest_server,
        }
    }

    /// Sets the flag of `proto`, leaving the others as they are.
    pub fn set(&mut self, proto: Protocol, enabled: bool)
        ensures
            spec_get(*final(self), proto) == enabled,
            forall|q: Protocol| q != proto ==> #[trigger] spec_get(*final(self), q) == spec_get(*old(self), q),
    {
        match proto {
            Protocol::Nfs => self.nfs = enabled,
            Protocol::Smb => self.smb = enabled,
            Protocol::Iscsi => self.iscsi = enabled,
            Protocol::Nvmeof => self.nvmeof = enabled,
            Protocol::Ftp => self.ftp = enabled,
            Protocol::Sftp => self.sftp = enabled,
            Protocol::S3 => self.s3 = enabled,
            Protocol::Nut => self.nut = enabled,
            Protocol::Ssh => self.ssh = enabled,
            Protocol::Avahi => self.avahi = enabled,
            Protocol::Smart => self.smart = enabled,
            Protocol::RestServer => self.rest_server = enabled,
        }
    }
}

/// A protocol's status as listed.
pub struct ProtocolStatus {
    /// Machine-readable identifier (`nfs`, `smb`, ...).
    pub name: String,
    /// Human-readable name.
    pub display_name: String,
    /// Enabled in persistent state.
    pub enabled: bool,
    /// Its service is active.
    pub running: bool,
    /// A system-level service rather than a storage protocol.
    pub system_service: bool,
}

impl ProtocolStatus {
    /// The status of `proto` given whether it is enabled and running.
    pub fn of(proto: Protocol, enabled: bool, running: bool) -> (r: Self)
        ensures
            r.name@ == proto_name(proto),
            r.display_name@ == proto_display_name(proto),
            r.enabled == enabled,
            r.running == running,
            r.system_service == spec_is_system_service(proto),
    {
        ProtocolStatus {
            name: String::from_str(proto.name()),
            display_name: String::from_str(proto.display_name()),
            enabled,
            running,
            system_service: proto.is_system_service(),
        }
    }
}

/// The protocol service.
pub struct ProtocolService;

impl ProtocolService {
    pub fn new() -> Self {
        ProtocolService
    }
}

/// Kernel modules a protocol needs before its services start; the RDMA
/// transports only where the RDMA toggle is on.
pub open spec fn spec_protocol_modules(proto: Protocol, rdma: bool) -> Seq<Seq<char>> {
    match proto {
        Protocol::Iscsi => if rdma {
            seq!["target_core_mod"@, "iscsi_target_mod"@, "ib_isert"@]
        } else {
            seq!["target_core_mod"@, "iscsi_target_mod"@]
        },
        Protocol::Nvmeof => if rdma {
            seq!["nvmet"@, "nvmet-tcp"@, "nvmet-rdma"@]
        } else {
            seq!["nvmet"@, "nvmet-tcp"@]
        },
        _ => Seq::empty(),
    }
}

pub fn protocol_modules(proto: Protocol, rdma: bool) -> (r: Vec<&'static str>)
    ensures
        r@.map_values(|m: &str| m@) == spec_protocol_modules(proto, rdma),
{
    let r: Vec<&'static str> = match proto {
        Protocol::Iscsi => {
            let mut m = vec!["target_core_mod", "iscsi_target_mod"];
            if rdma {
                m.push("ib_isert");
            }
            m
        },
        Protocol::Nvmeof => {
            let mut m = vec!["nvmet", "nvmet-tcp"];
            if rdma {
                m.push("nvmet-rdma");
            }
            m
        },
        _ => Vec::new(),
    };
    assert(r@.map_values(|m: &str| m@) =~= spec_protocol_modules(proto, rdma));
    r
}

/// What boot-time restore does with one protocol.
#[derive(Clone, Copy, Debug, PartialEq, Eq, Structural)]
pub enum RestoreAction {
    /// Prepare it, load its modules and start its services.
    Restore,
    /// Leave it alone.
    Skip,
    /// Stop its services: a disabled SMART daemon that an older generation
    /// started directly.
    StopDisabled,
}

pub open spec fn spec_restore_action(proto: Protocol, enabled: bool, excluded: bool) -> RestoreAction {
    if enabled && !excluded {
        RestoreAction::Restore
    } else if !enabled && proto == Protocol::Smart {
        RestoreAction::StopDisabled
    } else {
        RestoreAction::Skip
    }
}

/// Restore decides per protocol: enabled and not excluded (its backing
/// state failed validation) is restored; a disabled SMART is stopped.
pub fn restore_action(proto: Protocol, enabled: bool, excluded: bool) -> (r: RestoreAction)
    ensures
        r == spec_restore_action(proto, enabled, excluded),
{
    if enabled && !excluded {
        RestoreAction::Restore
    } else if !enabled && proto == Protocol::Smart {
        RestoreAction::StopDisabled
    } else {
        RestoreAction::Skip
    }
}

/// Requests that need a protocol are refused while it is disabled, with
/// this text.
pub fn protocol_not_enabled_message(proto: Protocol, enabled: bool) -> (r: Option<String>)
    ensures
        enabled ==> r is None,
        !enabled ==> r is Some && r->0@ == proto_display_name(proto)
            + " protocol is not enabled — enable it first via service.protocol.enable"@,
{
    if enabled {
        None
    } else {
        let mut s = String::from_str(proto.display_name());
        s.append(" protocol is not enabled — enable it first via service.protocol.enable");
        Some(s)
    }
}

/// What enabling a protocol comes to once its units were started in order.
pub enum EnableOutcome {
    /// Every unit started: the protocol stays enabled.
    Enabled,
    /// A unit failed: the units in `stop` (those started before it, in the
    /// order they were started) are stopped again, the persisted flag goes
    /// back to disabled, and the request fails with `message`.
    RolledBack { stop: Vec<&'static str>, message: String },
}

/// Decides the end of an enable request. `services` are the protocol's
/// units in start order; `failure` is the position of the first unit that
/// failed to start and the error it gave, or `None` where all started.
pub fn enable_outcome(proto: Protocol, services: &Vec<&'static str>, failure: Option<(usize, String)>) -> (r:
    EnableOutcome)
    ensures
        failure is None ==> r is Enabled,
        failure matches Some((k, e)) ==> (r matches EnableOutcome::RolledBack { stop, message } && stop@
            == services@.take(if k < services@.len() { k as int } else { services@.len() as int })
            && message@ == "Failed to start "@ + proto_display_name(proto) + ": "@ + e@),
{
    match failure {
        None => EnableOutcome::Enabled,
        Some((k, e)) => {
            let m = if k < services.len() {
                k
            } else {
                services.len()
            };
            let mut stop: Vec<&'static str> = Vec::new();
            for i in 0..m
                invariant
                    m <= services@.len(),
                    stop@ == services@.take(i as int),
            {
                stop.push(services[i]);
                assert(stop@ =~= services@.take(i + 1));
            }
            let mut message = String::from_str("Failed to start ");
            message.append(proto.display_name());
            message.append(": ");
            message.append(e.as_str());
            EnableOutcome::RolledBack { stop, message }
        },
    }
}

// ── laws ────────────────────────────────────────────────────────

/// A protocol's name reads back as that protocol.
pub proof fn law_from_name_inverts_name(p: Protocol)
    ensures
        spec_from_name(proto_name(p)) == Some(p),
{
    reveal_strlit("nfs");
    reveal_strlit("smb");
    reveal_strlit("iscsi");
    reveal_strlit("nvmeof");
    reveal_strlit("ftp");
    reveal_strlit("sftp");
    reveal_strlit("s3");
    reveal_strlit("nut");
    reveal_strlit("ssh");
    reveal_strlit("avahi");
    reveal_strlit("smart");
    reveal_strlit("rest-server");
    match p {
        Protocol::Nfs => {
        },
        Protocol::Smb => {
            assert("smb"@[0] != "nfs"@[0]);
        },
        Protocol::Iscsi => {
            assert("iscsi"@.len() != "nfs"@.len());
            assert("iscsi"@.len() != "smb"@.len());
        },
        Protocol::Nvmeof => {
            assert("nvmeof"@.len() != "nfs"@.len());
            assert("nvmeof"@.len() != "smb"@.len());
            assert("nvmeof"@.len() != "iscsi"@.len());
        },
        Protocol::Ftp => {
            assert("ftp"@[0] != "nfs"@[0]);
            assert("ftp"@[0] != "smb"@[0]);
            assert("ftp"@.len() != "iscsi"@.len());
            assert("ftp"@.len() != "nvmeof"@.len());
        },
        Protocol::Sftp => {
            assert("sftp"@.len() != "nfs"@.len());
            assert("sftp"@.len() != "smb"@.len());
            assert("sftp"@.len() != "iscsi"@.len());
            assert("sftp"@.len() != "nvmeof"@.len());
            assert("sftp"@.len() != "ftp"@.len());
        },
        Protocol::S3 => {
            assert("s3"@.len() != "nfs"@.len());
            assert("s3"@.len() != "smb"@.len());
            assert("s3"@.len() != "iscsi"@.len());
            assert("s3"@.len() != "nvmeof"@.len());
            assert("s3"@.len() != "ftp"@.len());
            assert("s3"@.len() != "sftp"@.len());
        },
        Protocol::Nut => {
            assert("nut"@[1] != "nfs"@[1]);
            assert("nut"@[0] != "smb"@[0]);
            assert("nut"@.len() != "iscsi"@.len());
            assert("nut"@.len() != "nvmeof"@.len());
            assert("nut"@[0] != "ftp"@[0]);
            assert("nut"@.len() != "sftp"@.len());
            assert("nut"@.len() != "s3"@.len());
        },
        Protocol::Ssh => {
            assert("ssh"@[0] != "nfs"@[0]);
            assert("ssh"@[1] != "smb"@[1]);
            assert("ssh"@.len() != "iscsi"@.len());
            assert("ssh"@.len() != "nvmeof"@.len());
            assert("ssh"@[0] != "ftp"@[0]);
            assert("ssh"@.len() != "sftp"@.len());
            assert("ssh"@.len() != "s3"@.len());
            assert("ssh"@[0] != "nut"@[0]);
        },
        Protocol::Avahi => {
            assert("avahi"@.len() != "nfs"@.len());
            assert("avahi"@.len() != "smb"@.len());
            assert("avahi"@[0] != "iscsi"@[0]);
            assert("avahi"@.len() != "nvmeof"@.len());
            assert("avahi"@.len() != "ftp"@.len());
            assert("avahi"@.len() != "sftp"@.len());
            assert("avahi"@.len() != "s3"@.len());
            assert("avahi"@.len() != "nut"@.len());
            assert("avahi"@.len() != "ssh"@.len());
        },
        Protocol::Smart => {
            assert("smart"@.len() != "nfs"@.len());
            assert("smart"@.len() != "smb"@.len());
            assert("smart"@[0] != "iscsi"@[0]);
            assert("smart"@.len() != "nvmeof"@.len());
            assert("smart"@.len() != "ftp"@.len());
            assert("smart"@.len() != "sftp"@.len());
            assert("smart"@.len() != "s3"@.len());
            assert("smart"@.len() != "nut"@.len());
            assert("smart"@.len() != "ssh"@.len());
            assert("smart"@[0] != "avahi"@[0]);
        },
        Protocol::RestServer => {
            assert("rest-server"@.len() != "nfs"@.len());
            assert("rest-server"@.len() != "smb"@.len());
            assert("rest-server"@.len() != "iscsi"@.len());
            assert("rest-server"@.len() != "nvmeof"@.len());
            assert("rest-server"@.len() != "ftp"@.len());
            assert("rest-server"@.len() != "sftp"@.len());
            assert("rest-server"@.len() != "s3"@.len());
            assert("rest-server"@.len() != "nut"@.len());
            assert("rest-server"@.len() != "ssh"@.len());
            assert("rest-server"@.len() != "avahi"@.len());
            assert("rest-server"@.len() != "smart"@.len());
        },
    }

}

/// Setting a flag and reading it back gives the value set; every other
/// protocol's flag is kept.
pub proof fn law_state_get_after_set(s: ProtocolState, p: Protocol, q: Protocol, enabled: bool, t: ProtocolState)
    requires
        spec_get(t, p) == enabled,
        forall|r: Protocol| r != p ==> #[trigger] spec_get(t, r) == spec_get(s, r),
    ensures
        spec_get(t, q) == if q == p {
            enabled
        } else {
            spec_get(s, q)
        },
{
}

/// Enabling a protocol starts at least one systemd unit, except NVMe-oF,
/// which has none (its targets live in configfs), and NUT, whose units are
/// those passed in for its mode. Every fixed unit is a `.service`; the
/// units of each protocol are listed.
pub proof fn law_protocols_start_units(p: Protocol, nut_units: Seq<Seq<char>>)
    ensures
        p != Protocol::Nvmeof && p != Protocol::Nut ==> spec_services(p, nut_units).len() > 0,
        p == Protocol::Nvmeof ==> spec_services(p, nut_units).len() == 0,
        p == Protocol::Nut ==> spec_services(p, nut_units) == nut_units,
        p != Protocol::Nut ==> forall|i: int|
            0 <= i < spec_services(p, nut_units).len() ==> ".service"@.is_suffix_of(
                #[trigger] spec_services(p, nut_units)[i],
            ),
        spec_services(Protocol::Iscsi, nut_units) == seq!["target.service"@],
        spec_services(Protocol::Nfs, nut_units) == seq!["nfs-server.service"@],
        spec_services(Protocol::Smb, nut_units) == seq!["ksmbd.service"@, "wsdd2.service"@],
        spec_services(Protocol::Ftp, nut_units) == seq!["nasty-rclone@ftp.service"@],
        spec_services(Protocol::Sftp, nut_units) == seq!["nasty-rclone@sftp.service"@],
        spec_services(Protocol::S3, nut_units) == seq!["nasty-rclone@s3.service"@],
        spec_services(Protocol::Ssh, nut_units) == seq!["sshd.service"@],
        spec_services(Protocol::Avahi, nut_units) == seq!["avahi-daemon.service"@],
        spec_services(Protocol::Smart, nut_units) == seq!["smartd.service"@],
        spec_services(Protocol::RestServer, nut_units) == seq!["nasty-rest-server.service"@],
{
    reveal_strlit(".service");
    reveal_strlit("nfs-server.service");
    reveal_strlit("ksmbd.service");
    reveal_strlit("wsdd2.service");
    reveal_strlit("target.service");
    reveal_strlit("nasty-rclone@ftp.service");
    reveal_strlit("nasty-rclone@sftp.service");
    reveal_strlit("nasty-rclone@s3.service");
    reveal_strlit("sshd.service");
    reveal_strlit("avahi-daemon.service");
    reveal_strlit("smartd.service");
    reveal_strlit("nasty-rest-server.service");
    if p != Protocol::Nut {
        assert forall|i: int|
            0 <= i < spec_services(p, nut_units).len() implies ".service"@.is_suffix_of(
                #[trigger] spec_services(p, nut_units)[i],
            ) by {
            let u = spec_services(p, nut_units)[i];
            assert(u.subrange(u.len() - 8, u.len() as int) =~= ".service"@);
        }
    }
}

} // verus!
