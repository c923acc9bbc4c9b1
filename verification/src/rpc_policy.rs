//! The central role gate of the JSON-RPC router: which methods are pure
//! reads, which each role may call, and which mutation broadcasts which
//! collection-changed event.
use vstd::prelude::*;

use crate::text::{chars_are, chars_of, ends_with_lit, starts_with_lit};

verus! {

/// Role of an authenticated session.
#[derive(Clone, Copy, Debug, PartialEq, Eq, Structural)]
pub enum Role {
    Admin,
    Operator,
    ReadOnly,
    User,
}

/// Methods whose `.list`/`.get` suffix must not make them readable by every role.
pub open spec fn read_only_carve_out(m: Seq<char>) -> bool {
    m == "auth.token.list"@
        || m == "guestshare.list"@
        || m == "guestshare.get"@
        || m == "system.custom_config.get"@
        || m == "share.ftp.settings.get"@
        || m == "share.sftp.settings.get"@
        || m == "share.s3.settings.get"@
}

/// Membership in the read-only carve-out list.
fn in_read_only_carve_out(m: &Vec<char>) -> (r: bool)
    ensures
        r == read_only_carve_out(m@),
{
    chars_are(m, "auth.token.list")
        || chars_are(m, "guestshare.list")
        || chars_are(m, "guestshare.get")
        || chars_are(m, "system.custom_config.get")
        || chars_are(m, "share.ftp.settings.get")
        || chars_are(m, "share.sftp.settings.get")
        || chars_are(m, "share.s3.settings.get")
}

/// Reads that the suffix rule does not catch.
pub open spec fn read_only_listed(m: Seq<char>) -> bool {
    m == "system.info"@
        || m == "system.health"@
        || m == "system.hardware.iommu"@
        || m == "system.hardware.summary"@
        || m == "system.passthrough.get"@
        || m == "system.rdma.status"@
        || m == "system.stats"@
        || m == "system.disks"@
        || m == "system.network.get"@
        || m == "system.logs"@
        || m == "system.logs.units"@
        || m == "system.ssh.status"@
        || m == "system.alerts"@
        || m == "system.settings.get"@
        || m == "system.tuning.get"@
        || m == "system.nut.config.get"@
        || m == "system.nut.status"@
        || m == "system.tailscale.get"@
        || m == "system.acme.status"@
        || m == "system.tls.local_ca_root"@
        || m == "system.tls.host_statuses"@
        || m == "system.metrics.history"@
        || m == "system.metrics.prometheus"@
        || m == "alert.rules.list"@
        || m == "device.list"@
        || m == "auth.me"@
        || m == "auth.list_users"@
        || m == "fs.dependents"@
        || m == "fs.locked_dependents"@
        || m == "fs.usage"@
        || m == "fs.scrub.status"@
        || m == "fs.reconcile.status"@
        || m == "bcachefs.usage"@
        || m == "service.protocol.list"@
        || m == "subvolume.list_all"@
        || m == "subvolume.list_dependents"@
        || m == "subvolume.find_by_property"@
        || m == "subvolume.children"@
        || m == "smb.user.list"@
        || m == "smb.group.list"@
        || m == "service.rest_server.config"@
        || m == "service.base_names.get"@
        || m == "system.update.version"@
        || m == "system.update.check"@
        || m == "backup.secrets_status"@
        || m == "system.update.status"@
        || m == "system.update.build_dir.get"@
        || m == "system.reboot_required"@
        || m == "system.generations.list"@
        || m == "system.version.get"@
        || m == "system.version.tagged_release_notice"@
        || m == "system.log.level"@
        || m == "system.settings.timezones"@
        || m == "audit.list"@
        || m == "audit.mine"@
        || m == "apps.check_ports"@
        || m == "apps.check_devices"@
        || m == "apps.check_volumes"@
        || m == "apps.check_compose"@
        || m == "apps.status"@
        || m == "apps.stats"@
        || m == "apps.logs"@
        || m == "apps.compose.logs"@
        || m == "apps.container.logs"@
        || m == "apps.inspect"@
        || m == "system.firewall.status"@
        || m == "vm.capabilities"@
        || m == "vm.images.import_info"@
        || m == "firmware.available"@
        || m == "firmware.constraints"@
        || m == "firmware.check"@
        || m == "firmware.devices"@
        || m == "notifications.config.get"@
        || m == "apps.config"@
        || m == "apps.inspect_image"@
        || m == "apps.caddy.routes"@
        || m == "apps.ingress.check_conflict"@
        || m == "bcachefs.timestats"@
        || m == "bcachefs.top"@
        || m == "backup.profile.list"@
        || m == "backup.profile.get"@
        || m == "backup.status"@
        || m == "backup.snapshots"@
        || m == "backup.jobs.list"@
        || m == "backup.jobs.get"@
        || m == "auth.oidc.config_status"@
        || m == "auth.webauthn.config"@
        || m == "auth.webauthn.list"@
}

/// Membership in the explicit read list.
fn in_read_only_list(m: &Vec<char>) -> (r: bool)
    ensures
        r == read_only_listed(m@),
{
    chars_are(m, "system.info")
        || chars_are(m, "system.health")
        || chars_are(m, "system.hardware.iommu")
        || chars_are(m, "system.hardware.summary")
        || chars_are(m, "system.passthrough.get")
        || chars_are(m, "system.rdma.status")
        || chars_are(m, "system.stats")
        || chars_are(m, "system.disks")
        || chars_are(m, "system.network.get")
        || chars_are(m, "system.logs")
        || chars_are(m, "system.logs.units")
        || chars_are(m, "system.ssh.status")
        || chars_are(m, "system.alerts")
        || chars_are(m, "system.settings.get")
        || chars_are(m, "system.tuning.get")
        || chars_are(m, "system.nut.config.get")
        || chars_are(m, "system.nut.status")
        || chars_are(m, "system.tailscale.get")
        || chars_are(m, "system.acme.status")
        || chars_are(m, "system.tls.local_ca_root")
        || chars_are(m, "system.tls.host_statuses")
        || chars_are(m, "system.metrics.history")
        || chars_are(m, "system.metrics.prometheus")
        || chars_are(m, "alert.rules.list")
        || chars_are(m, "device.list")
        || chars_are(m, "auth.me")
        || chars_are(m, "auth.list_users")
        || chars_are(m, "fs.dependents")
        || chars_are(m, "fs.locked_dependents")
        || chars_are(m, "fs.usage")
        || chars_are(m, "fs.scrub.status")
        || chars_are(m, "fs.reconcile.status")
        || chars_are(m, "bcachefs.usage")
        || chars_are(m, "service.protocol.list")
        || chars_are(m, "subvolume.list_all")
        || chars_are(m, "subvolume.list_dependents")
        || chars_are(m, "subvolume.find_by_property")
        || chars_are(m, "subvolume.children")
        || chars_are(m, "smb.user.list")
        || chars_are(m, "smb.group.list")
        || chars_are(m, "service.rest_server.config")
        || chars_are(m, "service.base_names.get")
        || chars_are(m, "system.update.version")
        || chars_are(m, "system.update.check")
        || chars_are(m, "backup.secrets_status")
        || chars_are(m, "system.update.status")
        || chars_are(m, "system.update.build_dir.get")
        || chars_are(m, "system.reboot_required")
        || chars_are(m, "system.generations.list")
        || chars_are(m, "system.version.get")
        || chars_are(m, "system.version.tagged_release_notice")
        || chars_are(m, "system.log.level")
        || chars_are(m, "system.settings.timezones")
        || chars_are(m, "audit.list")
        || chars_are(m, "audit.mine")
        || chars_are(m, "apps.check_ports")
        || chars_are(m, "apps.check_devices")
        || chars_are(m, "apps.check_volumes")
        || chars_are(m, "apps.check_compose")
        || chars_are(m, "apps.status")
        || chars_are(m, "apps.stats")
        || chars_are(m, "apps.logs")
        || chars_are(m, "apps.compose.logs")
        || chars_are(m, "apps.container.logs")
        || chars_are(m, "apps.inspect")
        || chars_are(m, "system.firewall.status")
        || chars_are(m, "vm.capabilities")
        || chars_are(m, "vm.images.import_info")
        || chars_are(m, "firmware.available")
        || chars_are(m, "firmware.constraints")
        || chars_are(m, "firmware.check")
        || chars_are(m, "firmware.devices")
        || chars_are(m, "notifications.config.get")
        || chars_are(m, "apps.config")
        || chars_are(m, "apps.inspect_image")
        || chars_are(m, "apps.caddy.routes")
        || chars_are(m, "apps.ingress.check_conflict")
        || chars_are(m, "bcachefs.timestats")
        || chars_are(m, "bcachefs.top")
        || chars_are(m, "backup.profile.list")
        || chars_are(m, "backup.profile.get")
        || chars_are(m, "backup.status")
        || chars_are(m, "backup.snapshots")
        || chars_are(m, "backup.jobs.list")
        || chars_are(m, "backup.jobs.get")
        || chars_are(m, "auth.oidc.config_status")
        || chars_are(m, "auth.webauthn.config")
        || chars_are(m, "auth.webauthn.list")
}

/// Writes that only touch the caller's own session or account.
pub open spec fn self_service_write(m: Seq<char>) -> bool {
    m == "auth.logout"@
        || m == "auth.change_password"@
        || m == "auth.webauthn.register.start"@
        || m == "auth.webauthn.register.finish"@
        || m == "auth.webauthn.delete"@
}

/// Membership in the self-service write list.
fn in_self_service_writes(m: &Vec<char>) -> (r: bool)
    ensures
        r == self_service_write(m@),
{
    chars_are(m, "auth.logout")
        || chars_are(m, "auth.change_password")
        || chars_are(m, "auth.webauthn.register.start")
        || chars_are(m, "auth.webauthn.register.finish")
        || chars_are(m, "auth.webauthn.delete")
}

/// The explicit allow-list of the standard user role.
pub open spec fn user_listed(m: Seq<char>) -> bool {
    m == "auth.me"@
        || m == "auth.logout"@
        || m == "auth.change_password"@
        || m == "auth.webauthn.config"@
        || m == "auth.webauthn.list"@
        || m == "auth.webauthn.register.start"@
        || m == "auth.webauthn.register.finish"@
        || m == "auth.webauthn.delete"@
        || m == "audit.mine"@
}

/// Membership in the standard-user list.
fn in_user_list(m: &Vec<char>) -> (r: bool)
    ensures
        r == user_listed(m@),
{
    chars_are(m, "auth.me")
        || chars_are(m, "auth.logout")
        || chars_are(m, "auth.change_password")
        || chars_are(m, "auth.webauthn.config")
        || chars_are(m, "auth.webauthn.list")
        || chars_are(m, "auth.webauthn.register.start")
        || chars_are(m, "auth.webauthn.register.finish")
        || chars_are(m, "auth.webauthn.delete")
        || chars_are(m, "audit.mine")
}

/// Mutations an operator may perform beyond the universal set.
pub open spec fn operator_listed(m: Seq<char>) -> bool {
    m == "subvolume.create"@
        || m == "subvolume.delete"@
        || m == "subvolume.attach"@
        || m == "subvolume.detach"@
        || m == "subvolume.resize"@
        || m == "subvolume.update"@
        || m == "subvolume.clone"@
        || m == "subvolume.set_properties"@
        || m == "subvolume.remove_properties"@
        || m == "snapshot.create"@
        || m == "snapshot.delete"@
        || m == "snapshot.clone"@
        || m == "snapshot.rollback"@
        || m == "share.nfs.create"@
        || m == "share.nfs.update"@
        || m == "share.nfs.delete"@
        || m == "guestshare.list"@
        || m == "guestshare.get"@
        || m == "guestshare.create"@
        || m == "guestshare.revoke"@
        || m == "guestshare.remove"@
        || m == "share.smb.create"@
        || m == "share.smb.update"@
        || m == "share.smb.delete"@
        || m == "share.ftp.create"@
        || m == "share.ftp.update"@
        || m == "share.ftp.delete"@
        || m == "share.ftp.settings.get"@
        || m == "share.ftp.settings.update"@
        || m == "share.sftp.create"@
        || m == "share.sftp.update"@
        || m == "share.sftp.delete"@
        || m == "share.sftp.settings.get"@
        || m == "share.sftp.settings.update"@
        || m == "share.s3.create"@
        || m == "share.s3.update"@
        || m == "share.s3.delete"@
        || m == "share.s3.settings.get"@
        || m == "share.s3.settings.update"@
        || m == "smb.user.create"@
        || m == "smb.user.delete"@
        || m == "smb.user.set_password"@
        || m == "smb.group.create"@
        || m == "smb.group.delete"@
        || m == "smb.group.add_member"@
        || m == "smb.group.remove_member"@
        || m == "share.iscsi.create"@
        || m == "share.iscsi.delete"@
        || m == "share.iscsi.add_lun"@
        || m == "share.iscsi.remove_lun"@
        || m == "share.iscsi.add_acl"@
        || m == "share.iscsi.remove_acl"@
        || m == "share.iscsi.add_portal"@
        || m == "share.iscsi.remove_portal"@
        || m == "share.nvmeof.create"@
        || m == "share.nvmeof.delete"@
        || m == "share.nvmeof.add_namespace"@
        || m == "share.nvmeof.remove_namespace"@
        || m == "share.nvmeof.add_port"@
        || m == "share.nvmeof.remove_port"@
        || m == "share.nvmeof.add_host"@
        || m == "share.nvmeof.remove_host"@
        || m == "vm.create"@
        || m == "vm.update"@
        || m == "vm.delete"@
        || m == "vm.start"@
        || m == "vm.stop"@
        || m == "vm.kill"@
        || m == "vm.snapshot"@
        || m == "vm.clone"@
        || m == "apps.enable"@
        || m == "apps.disable"@
        || m == "apps.install"@
        || m == "apps.update"@
        || m == "apps.remove"@
        || m == "apps.stop"@
        || m == "apps.start"@
        || m == "apps.restart"@
        || m == "apps.pull"@
        || m == "apps.prune"@
        || m == "apps.compose.install"@
        || m == "apps.compose.update"@
        || m == "apps.compose.remove"@
        || m == "apps.compose.set_startup"@
        || m == "apps.appdata.relocate"@
        || m == "apps.ingress.set"@
        || m == "apps.ingress.remove"@
        || m == "apps.networks.create"@
        || m == "apps.networks.remove"@
        || m == "backup.profile.create"@
        || m == "backup.profile.update"@
        || m == "backup.profile.delete"@
        || m == "backup.run"@
        || m == "backup.repo.check"@
        || m == "backup.repo.init"@
        || m == "backup.restore"@
        || m == "service.protocol.enable"@
        || m == "service.protocol.disable"@
        || m == "alert.acknowledge"@
        || m == "vm.images.ensure"@
        || m == "firmware.update"@
}

/// Membership in the operator list.
fn in_operator_list(m: &Vec<char>) -> (r: bool)
    ensures
        r == operator_listed(m@),
{
    chars_are(m, "subvolume.create")
        || chars_are(m, "subvolume.delete")
        || chars_are(m, "subvolume.attach")
        || chars_are(m, "subvolume.detach")
        || chars_are(m, "subvolume.resize")
        || chars_are(m, "subvolume.update")
        || chars_are(m, "subvolume.clone")
        || chars_are(m, "subvolume.set_properties")
        || chars_are(m, "subvolume.remove_properties")
        || chars_are(m, "snapshot.create")
        || chars_are(m, "snapshot.delete")
        || chars_are(m, "snapshot.clone")
        || chars_are(m, "snapshot.rollback")
        || chars_are(m, "share.nfs.create")
        || chars_are(m, "share.nfs.update")
        || chars_are(m, "share.nfs.delete")
        || chars_are(m, "guestshare.list")
        || chars_are(m, "guestshare.get")
        || chars_are(m, "guestshare.create")
        || chars_are(m, "guestshare.revoke")
        || chars_are(m, "guestshare.remove")
        || chars_are(m, "share.smb.create")
        || chars_are(m, "share.smb.update")
        || chars_are(m, "share.smb.delete")
        || chars_are(m, "share.ftp.create")
        || chars_are(m, "share.ftp.update")
        || chars_are(m, "share.ftp.delete")
        || chars_are(m, "share.ftp.settings.get")
        || chars_are(m, "share.ftp.settings.update")
        || chars_are(m, "share.sftp.create")
        || chars_are(m, "share.sftp.update")
        || chars_are(m, "share.sftp.delete")
        || chars_are(m, "share.sftp.settings.get")
        || chars_are(m, "share.sftp.settings.update")
        || chars_are(m, "share.s3.create")
        || chars_are(m, "share.s3.update")
        || chars_are(m, "share.s3.delete")
        || chars_are(m, "share.s3.settings.get")
        || chars_are(m, "share.s3.settings.update")
        || chars_are(m, "smb.user.create")
        || chars_are(m, "smb.user.delete")
        || chars_are(m, "smb.user.set_password")
        || chars_are(m, "smb.group.create")
        || chars_are(m, "smb.group.delete")
        || chars_are(m, "smb.group.add_member")
        || chars_are(m, "smb.group.remove_member")
        || chars_are(m, "share.iscsi.create")
        || chars_are(m, "share.iscsi.delete")
        || chars_are(m, "share.iscsi.add_lun")
        || chars_are(m, "share.iscsi.remove_lun")
        || chars_are(m, "share.iscsi.add_acl")
        || chars_are(m, "share.iscsi.remove_acl")
        || chars_are(m, "share.iscsi.add_portal")
        || chars_are(m, "share.iscsi.remove_portal")
        || chars_are(m, "share.nvmeof.create")
        || chars_are(m, "share.nvmeof.delete")
        || chars_are(m, "share.nvmeof.add_namespace")
        || chars_are(m, "share.nvmeof.remove_namespace")
        || chars_are(m, "share.nvmeof.add_port")
        || chars_are(m, "share.nvmeof.remove_port")
        || chars_are(m, "share.nvmeof.add_host")
        || chars_are(m, "share.nvmeof.remove_host")
        || chars_are(m, "vm.create")
        || chars_are(m, "vm.update")
        || chars_are(m, "vm.delete")
        || chars_are(m, "vm.start")
        || chars_are(m, "vm.stop")
        || chars_are(m, "vm.kill")
        || chars_are(m, "vm.snapshot")
        || chars_are(m, "vm.clone")
        || chars_are(m, "apps.enable")
        || chars_are(m, "apps.disable")
        || chars_are(m, "apps.install")
        || chars_are(m, "apps.update")
        || chars_are(m, "apps.remove")
        || chars_are(m, "apps.stop")
        || chars_are(m, "apps.start")
        || chars_are(m, "apps.restart")
        || chars_are(m, "apps.pull")
        || chars_are(m, "apps.prune")
        || chars_are(m, "apps.compose.install")
        || chars_are(m, "apps.compose.update")
        || chars_are(m, "apps.compose.remove")
        || chars_are(m, "apps.compose.set_startup")
        || chars_are(m, "apps.appdata.relocate")
        || chars_are(m, "apps.ingress.set")
        || chars_are(m, "apps.ingress.remove")
        || chars_are(m, "apps.networks.create")
        || chars_are(m, "apps.networks.remove")
        || chars_are(m, "backup.profile.create")
        || chars_are(m, "backup.profile.update")
        || chars_are(m, "backup.profile.delete")
        || chars_are(m, "backup.run")
        || chars_are(m, "backup.repo.check")
        || chars_are(m, "backup.repo.init")
        || chars_are(m, "backup.restore")
        || chars_are(m, "service.protocol.enable")
        || chars_are(m, "service.protocol.disable")
        || chars_are(m, "alert.acknowledge")
        || chars_are(m, "vm.images.ensure")
        || chars_are(m, "firmware.update")
}

/// Suffix rule plus explicit list, minus the carve-outs.
pub open spec fn spec_is_read_only(m: Seq<char>) -> bool {
    !read_only_carve_out(m) && (".list"@.is_suffix_of(m) || ".get"@.is_suffix_of(m)
        || ".status"@.is_suffix_of(m) || read_only_listed(m))
}

pub open spec fn spec_is_universally_allowed(m: Seq<char>) -> bool {
    spec_is_read_only(m) || self_service_write(m)
}

pub open spec fn spec_is_operator_allowed(m: Seq<char>) -> bool {
    spec_is_universally_allowed(m) || operator_listed(m)
}

fn read_only_chars(m: &Vec<char>) -> (r: bool)
    ensures
        r == spec_is_read_only(m@),
{
    if in_read_only_carve_out(m) {
        return false;
    }
    ends_with_lit(m, ".list") || ends_with_lit(m, ".get") || ends_with_lit(m, ".status")
        || in_read_only_list(m)
}

fn universally_allowed_chars(m: &Vec<char>) -> (r: bool)
    ensures
        r == spec_is_universally_allowed(m@),
{
    read_only_chars(m) || in_self_service_writes(m)
}

fn operator_allowed_chars(m: &Vec<char>) -> (r: bool)
    ensures
        r == spec_is_operator_allowed(m@),
{
    universally_allowed_chars(m) || in_operator_list(m)
}

/// Whether `method` is a pure read, safe for every role.
pub fn is_read_only(method: &str) -> (r: bool)
    ensures
        r == spec_is_read_only(method@),
{
    let m = chars_of(method);
    read_only_chars(&m)
}

/// Reads plus the self-service writes every authenticated user may call.
pub fn is_universally_allowed(method: &str) -> (r: bool)
    ensures
        r == spec_is_universally_allowed(method@),
{
    let m = chars_of(method);
    universally_allowed_chars(&m)
}

/// The explicit, deny-by-default allow-list of standard users.
pub fn is_user_allowed(method: &str) -> (r: bool)
    ensures
        r == user_listed(method@),
{
    let m = chars_of(method);
    in_user_list(&m)
}

/// What an operator may call: the universal set plus the operator list.
pub fn is_operator_allowed(method: &str) -> (r: bool)
    ensures
        r == spec_is_operator_allowed(method@),
{
    let m = chars_of(method);
    operator_allowed_chars(&m)
}

/// The collection whose change a successful call of `m` announces.
pub open spec fn spec_collection_for_method(m: Seq<char>) -> Option<Seq<char>> {
    let w = !spec_is_read_only(m);
    if !w {
        None
    } else if "fs.device."@.is_prefix_of(m) {
        Some("filesystem"@)
    } else if "fs."@.is_prefix_of(m) && w {
        Some("filesystem"@)
    } else if "device."@.is_prefix_of(m) && w {
        Some("filesystem"@)
    } else if "subvolume."@.is_prefix_of(m) && w {
        Some("subvolume"@)
    } else if "snapshot."@.is_prefix_of(m) && w {
        Some("snapshot"@)
    } else if "share.nfs."@.is_prefix_of(m) && w {
        Some("share.nfs"@)
    } else if "share.smb."@.is_prefix_of(m) && w {
        Some("share.smb"@)
    } else if "share.ftp."@.is_prefix_of(m) && w {
        Some("share.ftp"@)
    } else if "share.sftp."@.is_prefix_of(m) && w {
        Some("share.sftp"@)
    } else if "share.s3."@.is_prefix_of(m) && w {
        Some("share.s3"@)
    } else if "share.iscsi."@.is_prefix_of(m) && w {
        Some("share.iscsi"@)
    } else if "share.nvmeof."@.is_prefix_of(m) && w {
        Some("share.nvmeof"@)
    } else if "service.protocol."@.is_prefix_of(m) && w {
        Some("protocol"@)
    } else if "system.settings."@.is_prefix_of(m) && w {
        Some("settings"@)
    } else if "system.tuning."@.is_prefix_of(m) && w {
        Some("tuning"@)
    } else if "system.nut."@.is_prefix_of(m) && w {
        Some("nut"@)
    } else if "system.tailscale."@.is_prefix_of(m) && w {
        Some("tailscale"@)
    } else if "alert."@.is_prefix_of(m) && w {
        Some("alert"@)
    } else {
        None
    }
}

/// Derive the collection name for a mutation method, or `None` if it
/// announces nothing.
pub fn collection_for_method(method: &str) -> (r: Option<&'static str>)
    ensures
        r is None <==> spec_collection_for_method(method@) is None,
        r matches Some(c) ==> spec_collection_for_method(method@) == Some(c@),
{
    let m = chars_of(method);
    let w = !read_only_chars(&m);
    if !w {
        None
    } else if starts_with_lit(&m, "fs.device.") {
        Some("filesystem")
    } else if starts_with_lit(&m, "fs.") && w {
        Some("filesystem")
    } else if starts_with_lit(&m, "device.") && w {
        Some("filesystem")
    } else if starts_with_lit(&m, "subvolume.") && w {
        Some("subvolume")
    } else if starts_with_lit(&m, "snapshot.") && w {
        Some("snapshot")
    } else if starts_with_lit(&m, "share.nfs.") && w {
        Some("share.nfs")
    } else if starts_with_lit(&m, "share.smb.") && w {
        Some("share.smb")
    } else if starts_with_lit(&m, "share.ftp.") && w {
        Some("share.ftp")
    } else if starts_with_lit(&m, "share.sftp.") && w {
        Some("share.sftp")
    } else if starts_with_lit(&m, "share.s3.") && w {
        Some("share.s3")
    } else if starts_with_lit(&m, "share.iscsi.") && w {
        Some("share.iscsi")
    } else if starts_with_lit(&m, "share.nvmeof.") && w {
        Some("share.nvmeof")
    } else if starts_with_lit(&m, "service.protocol.") && w {
        Some("protocol")
    } else if starts_with_lit(&m, "system.settings.") && w {
        Some("settings")
    } else if starts_with_lit(&m, "system.tuning.") && w {
        Some("tuning")
    } else if starts_with_lit(&m, "system.nut.") && w {
        Some("nut")
    } else if starts_with_lit(&m, "system.tailscale.") && w {
        Some("tailscale")
    } else if starts_with_lit(&m, "alert.") && w {
        Some("alert")
    } else {
        None
    }
}

/// Whether a session of `role` may call `m` under the central gate.
pub open spec fn spec_role_permits(role: Role, m: Seq<char>) -> bool {
    match role {
        Role::Admin => true,
        Role::ReadOnly => spec_is_universally_allowed(m),
        Role::Operator => spec_is_operator_allowed(m),
        Role::User => user_listed(m),
    }
}

/// What the router does with a call before dispatching it.
#[derive(Clone, Copy, Debug, PartialEq, Eq, Structural)]
pub enum GateDecision {
    /// Dispatch the call.
    Allow,
    /// The session must change its password first.
    PasswordChangeRequired,
    /// The role may not call this method.
    PermissionDenied,
}

pub open spec fn password_change_exempt(m: Seq<char>) -> bool {
    m == "auth.change_password"@ || m == "auth.me"@ || m == "auth.logout"@
}

pub open spec fn spec_rpc_gate(role: Role, must_change_password: bool, m: Seq<char>) -> GateDecision {
    if must_change_password && !password_change_exempt(m) {
        GateDecision::PasswordChangeRequired
    } else if !spec_role_permits(role, m) {
        GateDecision::PermissionDenied
    } else {
        GateDecision::Allow
    }
}

/// The admission decision the router makes before dispatch: a forced
/// password change admits only the auth methods needed to perform it,
/// then the role gate applies.
pub fn rpc_gate(role: Role, must_change_password: bool, method: &str) -> (d: GateDecision)
    ensures
        d == spec_rpc_gate(role, must_change_password, method@),
{
    let m = chars_of(method);
    if must_change_password && !(chars_are(&m, "auth.change_password") || chars_are(&m, "auth.me")
        || chars_are(&m, "auth.logout")) {
        return GateDecision::PasswordChangeRequired;
    }
    let permitted = match role {
        Role::Admin => true,
        Role::ReadOnly => universally_allowed_chars(&m),
        Role::Operator => operator_allowed_chars(&m),
        Role::User => in_user_list(&m),
    };
    if permitted {
        GateDecision::Allow
    } else {
        GateDecision::PermissionDenied
    }
}

/// The text answered to a call that `rpc_gate` turns away; nothing for an allowed call.
pub fn gate_refusal_message(d: GateDecision) -> (r: Option<&'static str>)
    ensures
        match d {
            GateDecision::Allow => r is None,
            GateDecision::PasswordChangeRequired => r matches Some(t) && t@ == "Password change required"@,
            GateDecision::PermissionDenied => r matches Some(t) && t@ == "Permission denied"@,
        },
{
    match d {
        GateDecision::Allow => None,
        GateDecision::PasswordChangeRequired => Some("Password change required"),
        GateDecision::PermissionDenied => Some("Permission denied"),
    }
}

/// A successful call is audited when it writes and is not an `auth.*`
/// method (those are audited where they are handled).
pub fn audits_on_success(method: &str) -> (r: bool)
    ensures
        r == (!spec_is_read_only(method@) && !"auth."@.is_prefix_of(method@)),
{
    let m = chars_of(method);
    !read_only_chars(&m) && !starts_with_lit(&m, "auth.")
}


/// Role hierarchy: everything a standard user may call is open to every
/// role, every pure read is open to every role, and everything open to every
/// role is open to operators.
pub proof fn law_role_hierarchy(m: Seq<char>)
    ensures
        user_listed(m) ==> spec_is_universally_allowed(m),
        spec_is_read_only(m) ==> spec_is_universally_allowed(m),
        spec_is_universally_allowed(m) ==> spec_is_operator_allowed(m),
{
    reveal_strlit("auth.token.list");
    reveal_strlit("guestshare.list");
    reveal_strlit("guestshare.get");
    reveal_strlit("system.custom_config.get");
    reveal_strlit("share.ftp.settings.get");
    reveal_strlit("share.sftp.settings.get");
    reveal_strlit("share.s3.settings.get");
    if m == "auth.me"@ {
        reveal_strlit("auth.me");
        assert(m.len() == 7);
        assert(!read_only_carve_out(m));
        assert(spec_is_universally_allowed(m));
    }
    if m == "auth.logout"@ {
        reveal_strlit("auth.logout");
        assert(m.len() == 11);
        assert(!read_only_carve_out(m));
        assert(spec_is_universally_allowed(m));
    }
    if m == "auth.change_password"@ {
        reveal_strlit("auth.change_password");
        assert(m.len() == 20);
        assert(!read_only_carve_out(m));
        assert(spec_is_universally_allowed(m));
    }
    if m == "auth.webauthn.config"@ {
        reveal_strlit("auth.webauthn.config");
        assert(m.len() == 20);
        assert(!read_only_carve_out(m));
        assert(spec_is_universally_allowed(m));
    }
    if m == "auth.webauthn.list"@ {
        reveal_strlit("auth.webauthn.list");
        assert(m.len() == 18);
        assert(!read_only_carve_out(m));
        assert(spec_is_universally_allowed(m));
    }
    if m == "auth.webauthn.register.start"@ {
        reveal_strlit("auth.webauthn.register.start");
        assert(m.len() == 28);
        assert(!read_only_carve_out(m));
        assert(spec_is_universally_allowed(m));
    }
    if m == "auth.webauthn.register.finish"@ {
        reveal_strlit("auth.webauthn.register.finish");
        assert(m.len() == 29);
        assert(!read_only_carve_out(m));
        assert(spec_is_universally_allowed(m));
    }
    if m == "auth.webauthn.delete"@ {
        reveal_strlit("auth.webauthn.delete");
        assert(m.len() == 20);
        assert(!read_only_carve_out(m));
        assert(spec_is_universally_allowed(m));
    }
    if m == "audit.mine"@ {
        reveal_strlit("audit.mine");
        assert(m.len() == 10);
        assert(!read_only_carve_out(m));
        assert(spec_is_universally_allowed(m));
    }
}

/// Every `.list`, `.get` and `.status` method is a pure read, so a new
/// endpoint of that shape never triggers the change broadcast; the carved
/// out methods are never reads.
pub proof fn law_read_suffixes_are_reads(m: Seq<char>)
    ensures
        (".list"@.is_suffix_of(m) || ".get"@.is_suffix_of(m) || ".status"@.is_suffix_of(m))
            && !read_only_carve_out(m) ==> spec_is_read_only(m),
        read_only_carve_out(m) ==> !spec_is_read_only(m),
{
}

/// Only writes announce a collection change; every `fs.device.*` write
/// announces a filesystem change.
pub proof fn law_collection_only_for_writes(m: Seq<char>)
    ensures
        spec_collection_for_method(m) is Some ==> !spec_is_read_only(m),
        spec_is_read_only(m) ==> spec_collection_for_method(m) is None,
        "fs.device."@.is_prefix_of(m) && !spec_is_read_only(m) ==> spec_collection_for_method(m)
            == Some("filesystem"@),
{
}

/// Every method of the operator list is open to operator sessions: the
/// gate admits an operator that need not change its password.
pub proof fn law_operator_methods_are_open_to_operators(m: Seq<char>)
    requires
        m == "subvolume.create"@ ||
        m == "subvolume.delete"@ ||
        m == "subvolume.attach"@ ||
        m == "subvolume.detach"@ ||
        m == "subvolume.resize"@ ||
        m == "subvolume.update"@ ||
        m == "subvolume.clone"@ ||
        m == "subvolume.set_properties"@ ||
        m == "subvolume.remove_properties"@ ||
        m == "snapshot.create"@ ||
        m == "snapshot.delete"@ ||
        m == "snapshot.clone"@ ||
        m == "snapshot.rollback"@ ||
        m == "share.nfs.create"@ ||
        m == "share.nfs.update"@ ||
        m == "share.nfs.delete"@ ||
        m == "guestshare.list"@ ||
        m == "guestshare.get"@ ||
        m == "guestshare.create"@ ||
        m == "guestshare.revoke"@ ||
        m == "guestshare.remove"@ ||
        m == "share.smb.create"@ ||
        m == "share.smb.update"@ ||
        m == "share.smb.delete"@ ||
        m == "share.ftp.create"@ ||
        m == "share.ftp.update"@ ||
        m == "share.ftp.delete"@ ||
        m == "share.ftp.settings.get"@ ||
        m == "share.ftp.settings.update"@ ||
        m == "share.sftp.create"@ ||
        m == "share.sftp.update"@ ||
        m == "share.sftp.delete"@ ||
        m == "share.sftp.settings.get"@ ||
        m == "share.sftp.settings.update"@ ||
        m == "share.s3.create"@ ||
        m == "share.s3.update"@ ||
        m == "share.s3.delete"@ ||
        m == "share.s3.settings.get"@ ||
        m == "share.s3.settings.update"@ ||
        m == "smb.user.create"@ ||
        m == "smb.user.delete"@ ||
        m == "smb.user.set_password"@ ||
        m == "smb.group.create"@ ||
        m == "smb.group.delete"@ ||
        m == "smb.group.add_member"@ ||
        m == "smb.group.remove_member"@ ||
        m == "share.iscsi.create"@ ||
        m == "share.iscsi.delete"@ ||
        m == "share.iscsi.add_lun"@ ||
        m == "share.iscsi.remove_lun"@ ||
        m == "share.iscsi.add_acl"@ ||
        m == "share.iscsi.remove_acl"@ ||
        m == "share.iscsi.add_portal"@ ||
        m == "share.iscsi.remove_portal"@ ||
        m == "share.nvmeof.create"@ ||
        m == "share.nvmeof.delete"@ ||
        m == "share.nvmeof.add_namespace"@ ||
        m == "share.nvmeof.remove_namespace"@ ||
        m == "share.nvmeof.add_port"@ ||
        m == "share.nvmeof.remove_port"@ ||
        m == "share.nvmeof.add_host"@ ||
        m == "share.nvmeof.remove_host"@ ||
        m == "vm.create"@ ||
        m == "vm.update"@ ||
        m == "vm.delete"@ ||
        m == "vm.start"@ ||
        m == "vm.stop"@ ||
        m == "vm.kill"@ ||
        m == "vm.snapshot"@ ||
        m == "vm.clone"@ ||
        m == "apps.enable"@ ||
        m == "apps.disable"@ ||
        m == "apps.install"@ ||
        m == "apps.update"@ ||
        m == "apps.remove"@ ||
        m == "apps.stop"@ ||
        m == "apps.start"@ ||
        m == "apps.restart"@ ||
        m == "apps.pull"@ ||
        m == "apps.prune"@ ||
        m == "apps.compose.install"@ ||
        m == "apps.compose.update"@ ||
        m == "apps.compose.remove"@ ||
        m == "apps.compose.set_startup"@ ||
        m == "apps.appdata.relocate"@ ||
        m == "apps.ingress.set"@ ||
        m == "apps.ingress.remove"@ ||
        m == "apps.networks.create"@ ||
        m == "apps.networks.remove"@ ||
        m == "backup.profile.create"@ ||
        m == "backup.profile.update"@ ||
        m == "backup.profile.delete"@ ||
        m == "backup.run"@ ||
        m == "backup.repo.check"@ ||
        m == "backup.repo.init"@ ||
        m == "backup.restore"@ ||
        m == "service.protocol.enable"@ ||
        m == "service.protocol.disable"@ ||
        m == "alert.acknowledge"@ ||
        m == "vm.images.ensure"@ ||
        m == "firmware.update"@,
    ensures
        spec_is_operator_allowed(m),
        spec_role_permits(Role::Operator, m),
        spec_rpc_gate(Role::Operator, false, m) == GateDecision::Allow,
{
}

/// Operator sessions (not held to a password change) may call exactly
/// what every role may call and the methods of the operator list; every
/// other method is refused to them.
pub proof fn law_operator_gate_is_universal_plus_list(m: Seq<char>)
    ensures
        (spec_rpc_gate(Role::Operator, false, m) == GateDecision::Allow) == (spec_is_universally_allowed(m) || (
            m == "subvolume.create"@ ||
            m == "subvolume.delete"@ ||
            m == "subvolume.attach"@ ||
            m == "subvolume.detach"@ ||
            m == "subvolume.resize"@ ||
            m == "subvolume.update"@ ||
            m == "subvolume.clone"@ ||
            m == "subvolume.set_properties"@ ||
            m == "subvolume.remove_properties"@ ||
            m == "snapshot.create"@ ||
            m == "snapshot.delete"@ ||
            m == "snapshot.clone"@ ||
            m == "snapshot.rollback"@ ||
            m == "share.nfs.create"@ ||
            m == "share.nfs.update"@ ||
            m == "share.nfs.delete"@ ||
            m == "guestshare.list"@ ||
            m == "guestshare.get"@ ||
            m == "guestshare.create"@ ||
            m == "guestshare.revoke"@ ||
            m == "guestshare.remove"@ ||
            m == "share.smb.create"@ ||
            m == "share.smb.update"@ ||
            m == "share.smb.delete"@ ||
            m == "share.ftp.create"@ ||
            m == "share.ftp.update"@ ||
            m == "share.ftp.delete"@ ||
            m == "share.ftp.settings.get"@ ||
            m == "share.ftp.settings.update"@ ||
            m == "share.sftp.create"@ ||
            m == "share.sftp.update"@ ||
            m == "share.sftp.delete"@ ||
            m == "share.sftp.settings.get"@ ||
            m == "share.sftp.settings.update"@ ||
            m == "share.s3.create"@ ||
            m == "share.s3.update"@ ||
            m == "share.s3.delete"@ ||
            m == "share.s3.settings.get"@ ||
            m == "share.s3.settings.update"@ ||
            m == "smb.user.create"@ ||
            m == "smb.user.delete"@ ||
            m == "smb.user.set_password"@ ||
            m == "smb.group.create"@ ||
            m == "smb.group.delete"@ ||
            m == "smb.group.add_member"@ ||
            m == "smb.group.remove_member"@ ||
            m == "share.iscsi.create"@ ||
            m == "share.iscsi.delete"@ ||
            m == "share.iscsi.add_lun"@ ||
            m == "share.iscsi.remove_lun"@ ||
            m == "share.iscsi.add_acl"@ ||
            m == "share.iscsi.remove_acl"@ ||
            m == "share.iscsi.add_portal"@ ||
            m == "share.iscsi.remove_portal"@ ||
            m == "share.nvmeof.create"@ ||
            m == "share.nvmeof.delete"@ ||
            m == "share.nvmeof.add_namespace"@ ||
            m == "share.nvmeof.remove_namespace"@ ||
            m == "share.nvmeof.add_port"@ ||
            m == "share.nvmeof.remove_port"@ ||
            m == "share.nvmeof.add_host"@ ||
            m == "share.nvmeof.remove_host"@ ||
            m == "vm.create"@ ||
            m == "vm.update"@ ||
            m == "vm.delete"@ ||
            m == "vm.start"@ ||
            m == "vm.stop"@ ||
            m == "vm.kill"@ ||
            m == "vm.snapshot"@ ||
            m == "vm.clone"@ ||
            m == "apps.enable"@ ||
            m == "apps.disable"@ ||
            m == "apps.install"@ ||
            m == "apps.update"@ ||
            m == "apps.remove"@ ||
            m == "apps.stop"@ ||
            m == "apps.start"@ ||
            m == "apps.restart"@ ||
            m == "apps.pull"@ ||
            m == "apps.prune"@ ||
            m == "apps.compose.install"@ ||
            m == "apps.compose.update"@ ||
            m == "apps.compose.remove"@ ||
            m == "apps.compose.set_startup"@ ||
            m == "apps.appdata.relocate"@ ||
            m == "apps.ingress.set"@ ||
            m == "apps.ingress.remove"@ ||
            m == "apps.networks.create"@ ||
            m == "apps.networks.remove"@ ||
            m == "backup.profile.create"@ ||
            m == "backup.profile.update"@ ||
            m == "backup.profile.delete"@ ||
            m == "backup.run"@ ||
            m == "backup.repo.check"@ ||
            m == "backup.repo.init"@ ||
            m == "backup.restore"@ ||
            m == "service.protocol.enable"@ ||
            m == "service.protocol.disable"@ ||
            m == "alert.acknowledge"@ ||
            m == "vm.images.ensure"@ ||
            m == "firmware.update"@)),
        spec_rpc_gate(Role::Operator, false, m) != GateDecision::Allow ==> spec_rpc_gate(
            Role::Operator,
            false,
            m,
        ) == GateDecision::PermissionDenied,
{
}

/// Admins may call anything; read-only and operator sessions may call every
/// pure read.
pub proof fn law_reads_open_to_non_user_roles(role: Role, m: Seq<char>)
    requires
        role != Role::User,
        spec_is_read_only(m),
    ensures
        spec_role_permits(role, m),
{
}

}

verus! {

// ── dispatch ────────────────────────────────────────────────────

/// The handler family a method is dispatched to.
#[derive(Clone, Copy, Debug, PartialEq, Eq, Structural)]
pub enum RouteDomain {
    Auth,
    Audit,
    Alerts,
    Notifications,
    Backup,
    Fs,
    Bcachefs,
    Subvolume,
    Snapshot,
    Share,
    GuestShare,
    Smb,
    Service,
    System,
    Vm,
    Apps,
}

/// The part of a method before its first `.` (all of it where it has none).
pub open spec fn method_prefix(m: Seq<char>) -> Seq<char> {
    match crate::scan::split_once_seq(m, '.') {
        Some((p, _)) => p,
        None => m,
    }
}

/// The handler family of a method, by its prefix; `system.alerts` belongs
/// to the alerts handlers.
pub open spec fn spec_route_domain(m: Seq<char>) -> Option<RouteDomain> {
    let p = method_prefix(m);
    if p == "auth"@ {
        Some(RouteDomain::Auth)
    } else if p == "audit"@ {
        Some(RouteDomain::Audit)
    } else if p == "alert"@ {
        Some(RouteDomain::Alerts)
    } else if p == "telemetry"@ {
        Some(RouteDomain::Alerts)
    } else if p == "notifications"@ {
        Some(RouteDomain::Notifications)
    } else if p == "backup"@ {
        Some(RouteDomain::Backup)
    } else if p == "fs"@ {
        Some(RouteDomain::Fs)
    } else if p == "device"@ {
        Some(RouteDomain::Fs)
    } else if p == "bcachefs"@ {
        Some(RouteDomain::Bcachefs)
    } else if p == "subvolume"@ {
        Some(RouteDomain::Subvolume)
    } else if p == "snapshot"@ {
        Some(RouteDomain::Snapshot)
    } else if p == "share"@ {
        Some(RouteDomain::Share)
    } else if p == "guestshare"@ {
        Some(RouteDomain::GuestShare)
    } else if p == "smb"@ {
        Some(RouteDomain::Smb)
    } else if p == "service"@ {
        Some(RouteDomain::Service)
    } else if p == "firmware"@ {
        Some(RouteDomain::System)
    } else if p == "vm"@ {
        Some(RouteDomain::Vm)
    } else if p == "apps"@ {
        Some(RouteDomain::Apps)
    } else if p == "system"@ {
        if m == "system.alerts"@ {
            Some(RouteDomain::Alerts)
        } else {
            Some(RouteDomain::System)
        }
    } else {
        None
    }
}

pub fn route_domain(method: &str) -> (r: Option<RouteDomain>)
    ensures
        r == spec_route_domain(method@),
{
    let m = chars_of(method);
    let p = match crate::scan::split_once_chars(&m, '.') {
        Some((p, _rest)) => p,
        None => m.clone(),
    };
    if chars_are(&p, "auth") {
        Some(RouteDomain::Auth)
    } else if chars_are(&p, "audit") {
        Some(RouteDomain::Audit)
    } else if chars_are(&p, "alert") {
        Some(RouteDomain::Alerts)
    } else if chars_are(&p, "telemetry") {
        Some(RouteDomain::Alerts)
    } else if chars_are(&p, "notifications") {
        Some(RouteDomain::Notifications)
    } else if chars_are(&p, "backup") {
        Some(RouteDomain::Backup)
    } else if chars_are(&p, "fs") {
        Some(RouteDomain::Fs)
    } else if chars_are(&p, "device") {
        Some(RouteDomain::Fs)
    } else if chars_are(&p, "bcachefs") {
        Some(RouteDomain::Bcachefs)
    } else if chars_are(&p, "subvolume") {
        Some(RouteDomain::Subvolume)
    } else if chars_are(&p, "snapshot") {
        Some(RouteDomain::Snapshot)
    } else if chars_are(&p, "share") {
        Some(RouteDomain::Share)
    } else if chars_are(&p, "guestshare") {
        Some(RouteDomain::GuestShare)
    } else if chars_are(&p, "smb") {
        Some(RouteDomain::Smb)
    } else if chars_are(&p, "service") {
        Some(RouteDomain::Service)
    } else if chars_are(&p, "firmware") {
        Some(RouteDomain::System)
    } else if chars_are(&p, "vm") {
        Some(RouteDomain::Vm)
    } else if chars_are(&p, "apps") {
        Some(RouteDomain::Apps)
    } else if chars_are(&p, "system") {
        if chars_are(&m, "system.alerts") {
            Some(RouteDomain::Alerts)
        } else {
            Some(RouteDomain::System)
        }
    } else {
        None
    }
}

/// The error text for a method no handler serves.
pub fn unknown_method_message(method: &str) -> (r: String)
    ensures
        r@ == "Unknown method: "@ + method@,
{
    let mut s = String::from_str("Unknown method: ");
    s.append(method);
    s
}

/// The error text for parameters that could not be used.
pub fn invalid_params_message(msg: &str) -> (r: String)
    ensures
        r@ == "Invalid params: "@ + msg@,
{
    let mut s = String::from_str("Invalid params: ");
    s.append(msg);
    s
}

/// The error text for a required string parameter that is missing.
pub fn missing_param_message(key: &str) -> (r: String)
    ensures
        r@ == "Missing required param: "@ + key@,
{
    let mut s = String::from_str("Missing required param: ");
    s.append(key);
    s
}

/// The error text for an RDMA-transport request while RDMA is switched off.
pub const RDMA_DISABLED_MESSAGE: &'static str = "RDMA transport is disabled on this box — enable RDMA on the Sharing page first (requires an RDMA-capable NIC)";

// ── audit detail ────────────────────────────────────────────────

/// The value of the string field `key`, if the parameters have one.
pub open spec fn field_value(fields: Seq<(String, String)>, key: Seq<char>) -> Option<Seq<char>>
    decreases fields.len(),
{
    if fields.len() == 0 {
        None
    } else if fields[0].0@ == key {
        Some(fields[0].1@)
    } else {
        field_value(fields.drop_first(), key)
    }
}

/// The identifying fields an audit entry shows, most specific first.
pub open spec fn audit_keys() -> Seq<Seq<char>> {
    seq!["name"@, "username"@, "filesystem"@, "target"@, "id"@, "path"@, "device"@]
}

pub open spec fn first_field(fields: Seq<(String, String)>, keys: Seq<Seq<char>>) -> Seq<char>
    decreases keys.len(),
{
    if keys.len() == 0 {
        Seq::empty()
    } else {
        match field_value(fields, keys[0]) {
            Some(v) => v,
            None => first_field(fields, keys.drop_first()),
        }
    }
}

fn find_field(fields: &Vec<(String, String)>, key: &str) -> (r: Option<String>)
    ensures
        crate::text::opt_str(r) == field_value(fields@, key@),
{
    let n = fields.len();
    let mut i: usize = 0;
    assert(fields@.skip(0) =~= fields@);
    while i < n
        invariant
            n == fields@.len(),
            i <= n,
            field_value(fields@, key@) == field_value(fields@.skip(i as int), key@),
        decreases n - i,
    {
        assert(fields@.skip(i as int)[0] == fields@[i as int]);
        assert(fields@.skip(i as int).drop_first() =~= fields@.skip(i + 1));
        if crate::text::str_eq(fields[i].0.as_str(), key) {
            return Some(fields[i].1.clone());
        }
        i = i + 1;
    }
    None
}

/// The summary an audit entry records for a mutation: the first of its
/// identifying string parameters (`fields`, the string-valued parameters),
/// or nothing.
pub fn audit_detail(fields: &Vec<(String, String)>) -> (r: String)
    ensures
        r@ == first_field(fields@, audit_keys()),
{
    let keys: Vec<&str> = vec!["name", "username", "filesystem", "target", "id", "path", "device"];
    assert(keys@.map_values(|k: &str| k@) =~= audit_keys());
    let n = keys.len();
    let mut i: usize = 0;
    assert(audit_keys().skip(0) =~= audit_keys());
    while i < n
        invariant
            n == keys@.len(),
            i <= n,
            keys@.map_values(|k: &str| k@) == audit_keys(),
            first_field(fields@, audit_keys()) == first_field(fields@, audit_keys().skip(i as int)),
        decreases n - i,
    {
        assert(audit_keys().skip(i as int)[0] == keys@[i as int]@);
        assert(audit_keys().skip(i as int).drop_first() =~= audit_keys().skip(i + 1));
        if let Some(v) = find_field(fields, keys[i]) {
            return v;
        }
        i = i + 1;
    }
    String::new()
}

} // verus!
