//! The Minecraft accounts a game is launched with.

use vstd::prelude::*;
use vstd::utf8::encode_utf8;
use crate::utils::text::push_str;

verus! {

/// A Minecraft account: one of Microsoft, with the tokens of its login kept as JSON text, or
/// an offline one, named by the player.
pub enum MinecraftAccount {
    MsaAccount {
        /// The state of the Microsoft login, as JSON text.
        state: String,
        name: String,
        /// The player's UUID, as its sixteen bytes.
        id: [u8; 16],
    },
    OfflineAccount { name: String, id: [u8; 16] },
}

/// The MD5 digest of `data`.
pub uninterp spec fn md5_digest(data: Seq<u8>) -> Seq<u8>;

/// Trusted: `md5::compute`, whose digest of sixteen bytes the result is; which bytes MD5
/// gives is named, not stated.
#[verifier::external_body]
fn md5_compute(data: &[u8]) -> (r: [u8; 16])
    ensures
        r@ == md5_digest(data@),
{
    md5::compute(data).0
}

/// A name-based UUID of version 3 from an MD5 digest: the version nibble set to 3 and the
/// variant bits to those of RFC 4122, as Java's `UUID.nameUUIDFromBytes` does.
pub open spec fn uuid_v3_bytes(digest: Seq<u8>) -> Seq<u8> {
    digest.update(6, (digest[6] & 0x0f) | 0x30).update(8, (digest[8] & 0x3f) | 0x80)
}

/// The UUID an offline player has: the one Minecraft derives from `OfflinePlayer:<name>`.
pub open spec fn offline_uuid(name: Seq<char>) -> Seq<u8> {
    uuid_v3_bytes(md5_digest(encode_utf8("OfflinePlayer:"@ + name)))
}

/// The UUID made of any digest of sixteen bytes, an offline player's among them, is one of
/// version 3 with the variant of RFC 4122.
pub proof fn law_offline_uuids_are_version_3(digest: Seq<u8>)
    requires
        digest.len() == 16,
    ensures
        uuid_v3_bytes(digest).len() == 16,
        uuid_v3_bytes(digest)[6] >> 4u8 == 3,
        uuid_v3_bytes(digest)[8] & 0xc0u8 == 0x80,
{
    let b6 = digest[6];
    let b8 = digest[8];
    assert(((b6 & 0x0f) | 0x30) >> 4u8 == 3) by (bit_vector);
    assert(((b8 & 0x3f) | 0x80) & 0xc0u8 == 0x80) by (bit_vector);
}

impl MinecraftAccount {
    /// An offline account for `username`, with the UUID Minecraft itself gives such a player.
    pub fn auth_offline(username: String) -> (r: MinecraftAccount)
        ensures
            r matches MinecraftAccount::OfflineAccount { name, id } && name == username && id@
                == offline_uuid(username@),
    {
        let mut name_str = String::new();
        push_str(&mut name_str, "OfflinePlayer:");
        push_str(&mut name_str, username.as_str());
        let bytes = name_str.as_str().as_bytes();
        let mut digest = md5_compute(bytes);
        let ghost d = digest@;
        digest[6] = (digest[6] & 0x0f) | 0x30;
        digest[8] = (digest[8] & 0x3f) | 0x80;
        assert(digest@ =~= uuid_v3_bytes(d));
        MinecraftAccount::OfflineAccount { name: username, id: digest }
    }

    /// The player's name.
    pub fn get_username(&self) -> (r: &String)
        ensures
            r == match self {
                MinecraftAccount::MsaAccount { name, .. } => name,
                MinecraftAccount::OfflineAccount { name, .. } => name,
            },
    {
        match self {
            MinecraftAccount::MsaAccount { name, .. } => name,
            MinecraftAccount::OfflineAccount { name, .. } => name,
        }
    }

    /// Logging out keeps nothing to revoke: it always succeeds.
    pub fn logout(&self) -> (r: Result<(), String>)
        ensures
            r is Ok,
    {
        Ok(())
    }

    /// Whether refreshing the account asks Microsoft: a Microsoft account's tokens are renewed,
    /// an offline account stays as it is.
    pub fn refreshes_online(&self) -> (r: bool)
        ensures
            r == (*self is MsaAccount),
    {
        match self {
            MinecraftAccount::MsaAccount { .. } => true,
            MinecraftAccount::OfflineAccount { .. } => false,
        }
    }
}

} // verus!
