//! Permission overwrites as the chat platform holds them, and how they read
//! as the explicit per-user entries that the reconciler works on.
use crate::reconcile::{AccessOverwrite, Action};
use serenity::model::permissions::Permissions;
use vstd::prelude::*;

verus! {

/// Whom a permission overwrite is for.
#[derive(Clone, Copy, Debug, PartialEq, Eq, Structural)]
pub enum OverwriteKind {
    Member(u64),
    Role(u64),
}

/// A permission overwrite of a channel: the permission bits it allows and
/// denies, and whom it is for.
#[derive(Clone, Copy, Debug, PartialEq, Eq, Structural)]
pub struct Overwrite {
    pub allow: u64,
    pub deny: u64,
    pub kind: OverwriteKind,
}

/// What the permission API is asked to do for one action.
#[derive(Clone, Copy, Debug, PartialEq, Eq, Structural)]
pub enum PermissionRequest {
    /// Write this overwrite, replacing the one its target has.
    Create(Overwrite),
    /// Delete the overwrite of this target.
    Delete(OverwriteKind),
}

/// The bits carry the permission to read messages.
pub open spec fn allows_reading(bits: u64) -> bool {
    bits & 0x400 == 0x400
}

/// The bits carry the administrator permission or the permission to manage
/// channels.
pub open spec fn may_administer(bits: u64) -> bool {
    bits & 0x8 == 0x8 || bits & 0x10 == 0x10
}

/// Calls serenity's `Permissions::read_messages` on a permission set with
/// exactly these bits. The method tests that the set contains
/// `READ_MESSAGES`, which is bit 10.
#[verifier::external_body]
fn read_messages(bits: u64) -> (held: bool)
    ensures
        held == allows_reading(bits),
{
    Permissions { bits }.read_messages()
}

/// Calls serenity's `Permissions::administrator` on a permission set with
/// exactly these bits. The method tests that the set contains
/// `ADMINISTRATOR`, which is bit 3.
#[verifier::external_body]
fn administrator(bits: u64) -> (held: bool)
    ensures
        held == (bits & 0x8 == 0x8),
{
    Permissions { bits }.administrator()
}

/// Calls serenity's `Permissions::manage_channels` on a permission set with
/// exactly these bits. The method tests that the set contains
/// `MANAGE_CHANNELS`, which is bit 4.
#[verifier::external_body]
fn manage_channels(bits: u64) -> (held: bool)
    ensures
        held == (bits & 0x10 == 0x10),
{
    Permissions { bits }.manage_channels()
}

/// Calls serenity's `Permissions::bits` on its constant `READ_MESSAGES`,
/// which the crate defines as bit 10 alone.
#[verifier::external_body]
fn read_messages_bits() -> (bits: u64)
    ensures
        bits == 0x400,
{
    Permissions::READ_MESSAGES.bits()
}

/// Calls serenity's `Permissions::bits` on its constant `SEND_MESSAGES`,
/// which the crate defines as bit 11 alone.
#[verifier::external_body]
fn send_messages_bits() -> (bits: u64)
    ensures
        bits == 0x800,
{
    Permissions::SEND_MESSAGES.bits()
}

/// How one overwrite reads as an explicit per-user entry: an overwrite for a
/// member is an entry of that member, allowed exactly when its allow bits
/// let the member read messages; an overwrite for a role is no entry.
pub open spec fn member_entry(overwrite: Overwrite) -> Option<AccessOverwrite> {
    match overwrite.kind {
        OverwriteKind::Member(user_id) => Some(
            AccessOverwrite { user_id, allowed: allows_reading(overwrite.allow) },
        ),
        OverwriteKind::Role(_) => None,
    }
}

/// How a channel's overwrites read as explicit per-user entries: the entries
/// of its member overwrites, in order.
pub open spec fn member_entries(overwrites: Seq<Overwrite>) -> Seq<AccessOverwrite> {
    overwrites.filter_map(|overwrite: Overwrite| member_entry(overwrite))
}

/// The request that carries an action out.
pub open spec fn request_for(action: Action) -> PermissionRequest {
    match action {
        Action::Grant(user) => PermissionRequest::Create(
            Overwrite { allow: 0xC00, deny: 0, kind: OverwriteKind::Member(user) },
        ),
        Action::Revoke(user) => PermissionRequest::Delete(OverwriteKind::Member(user)),
    }
}

/// Whether a user with these permission bits may run the commands that link
/// and unlink rooms: administrators and those who manage channels may.
pub fn check_perms(bits: u64) -> (allowed: bool)
    ensures
        allowed == may_administer(bits),
{
    administrator(bits) || manage_channels(bits)
}

/// Reads a channel's permission overwrites as explicit per-user entries.
pub fn member_overwrites(overwrites: &Vec<Overwrite>) -> (entries: Vec<AccessOverwrite>)
    ensures
        entries@ == member_entries(overwrites@),
{
    let mut entries: Vec<AccessOverwrite> = Vec::new();
    let mut i: usize = 0;
    while i < overwrites.len()
        invariant
            i <= overwrites.len(),
            entries@ == member_entries(overwrites@.take(i as int)),
        decreases overwrites.len() - i,
    {
        proof {
            let next = overwrites@.take(i + 1);
            assert(next.drop_last() == overwrites@.take(i as int));
            assert(next.last() == overwrites[i as int]);
        }
        match overwrites[i].kind {
            OverwriteKind::Member(user_id) => {
                let allowed = read_messages(overwrites[i].allow);
                entries.push(AccessOverwrite { user_id, allowed });
            },
            OverwriteKind::Role(_) => {},
        }
        i += 1;
    }
    proof {
        assert(overwrites@.take(i as int) == overwrites@);
    }
    entries
}

/// The overwrite that gives a member access to the text channel: it allows
/// reading and sending messages and denies nothing, so that it reads back as
/// an explicit allow for that member.
pub fn grant_access(member_id: u64) -> (overwrite: Overwrite)
    ensures
        overwrite == (Overwrite { allow: 0xC00, deny: 0, kind: OverwriteKind::Member(member_id) }),
        member_entry(overwrite) == Some(AccessOverwrite { user_id: member_id, allowed: true }),
{
    let allow = read_messages_bits() | send_messages_bits();
    assert(allow == 0xC00 && allow & 0x400 == 0x400) by (bit_vector)
        requires
            allow == 0x400u64 | 0x800u64,
    ;
    Overwrite { allow, deny: 0, kind: OverwriteKind::Member(member_id) }
}

/// The overwrite to delete so that a member loses every explicit entry on
/// the text channel: the member's own.
pub fn revoke_access(member_id: u64) -> (target: OverwriteKind)
    ensures
        target == OverwriteKind::Member(member_id),
{
    OverwriteKind::Member(member_id)
}

/// Turns an action of the reconciler into the request that carries it out.
pub fn manage_access(action: Action) -> (request: PermissionRequest)
    ensures
        request == request_for(action),
{
    match action {
        Action::Grant(user) => PermissionRequest::Create(grant_access(user)),
        Action::Revoke(user) => PermissionRequest::Delete(revoke_access(user)),
    }
}

} // verus!
