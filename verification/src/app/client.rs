//! What starting the client takes from the settings: the account to play with, the runtime
//! and memory, and whether advertisements are skipped.

use vstd::prelude::*;
use crate::app::options::Options;
use crate::auth::ClientAccount;
use crate::minecraft::auth::MinecraftAccount;
use crate::minecraft::launcher::StartParameter;
use crate::utils::checksum::{hex_byte, hex_digit};
use crate::utils::text::{push_char, push_str, views};

verus! {

/// The anonymous identifier the launcher gives the game as its client id.
pub open spec fn azure_client_id() -> Seq<char> {
    "0add8caf-2cc6-4546-b798-c3d171217dd9"@
}

/// The bytes from `from` to `to` in hexadecimal.
pub open spec fn hex_bytes(bytes: Seq<u8>, from: int, to: int) -> Seq<char>
    decreases to - from,
{
    if to <= from {
        Seq::empty()
    } else {
        hex_bytes(bytes, from, to - 1) + hex_byte(bytes[to - 1])
    }
}

/// A UUID in its hyphenated form, `xxxxxxxx-xxxx-xxxx-xxxx-xxxxxxxxxxxx`, in lower case.
pub open spec fn uuid_text(bytes: Seq<u8>) -> Seq<char> {
    hex_bytes(bytes, 0, 4) + "-"@ + hex_bytes(bytes, 4, 6) + "-"@ + hex_bytes(bytes, 6, 8) + "-"@
        + hex_bytes(bytes, 8, 10) + "-"@ + hex_bytes(bytes, 10, 16)
}

fn push_hex_digit(s: &mut String, d: u8)
    requires
        d < 16,
    ensures
        final(s)@ == old(s)@.push(hex_digit(d)),
{
    if d < 10 {
        push_char(s, (48 + d) as char);
    } else {
        push_char(s, (87 + d) as char);
    }
}

fn push_hex_bytes(s: &mut String, bytes: &[u8; 16], from: usize, to: usize)
    requires
        from <= to <= 16,
    ensures
        final(s)@ == old(s)@ + hex_bytes(bytes@, from as int, to as int),
{
    let mut i: usize = from;
    assert(hex_bytes(bytes@, from as int, from as int) =~= Seq::<char>::empty());
    assert(old(s)@ + Seq::<char>::empty() =~= old(s)@);
    while i < to
        invariant
            from <= i <= to <= 16,
            s@ == old(s)@ + hex_bytes(bytes@, from as int, i as int),
        decreases to - i,
    {
        let b = bytes[i];
        push_hex_digit(s, b / 16);
        push_hex_digit(s, b % 16);
        i = i + 1;
        assert(s@ =~= old(s)@ + hex_bytes(bytes@, from as int, i as int));
    }
}

/// A UUID in its hyphenated form, as `uuid::Uuid` writes it.
pub fn uuid_string(bytes: &[u8; 16]) -> (r: String)
    ensures
        r@ == uuid_text(bytes@),
{
    let mut r = String::new();
    push_hex_bytes(&mut r, bytes, 0, 4);
    push_str(&mut r, "-");
    push_hex_bytes(&mut r, bytes, 4, 6);
    push_str(&mut r, "-");
    push_hex_bytes(&mut r, bytes, 6, 8);
    push_str(&mut r, "-");
    push_hex_bytes(&mut r, bytes, 8, 10);
    push_str(&mut r, "-");
    push_hex_bytes(&mut r, bytes, 10, 16);
    r
}

/// A launch goes ahead only while no client runs; one asked for beside a running client is
/// refused with "client is already running".
pub fn launch_allowed(client_running: bool) -> (r: Result<(), String>)
    ensures
        client_running <==> r is Err,
        r matches Err(message) ==> message@ == "client is already running"@,
{
    if client_running {
        let mut message = String::new();
        push_str(&mut message, "client is already running");
        Err(message)
    } else {
        Ok(())
    }
}

/// Whether the client account is of a premium user, as far as the API told.
pub open spec fn is_premium(account: Option<ClientAccount>) -> bool {
    match account {
        Some(a) => match a.user_information_spec() {
            Some(u) => u.premium,
            None => false,
        },
        None => false,
    }
}

/// The parameters of a launch from the settings: the account's name, UUID and token (`-` and
/// the `legacy` user type for an offline account, `access_token` and `msa` for a Microsoft one),
/// the custom data path if one is set, and advertisements skipped only for premium users who
/// asked to. Refused when no account is selected.
pub fn start_parameter(options: Options, access_token: String, xuid: String) -> (r: Result<StartParameter, String>)
    ensures
        match options.start_options.minecraft_account {
            None => r matches Err(message) && message@ == "no account selected"@,
            Some(account) => r matches Ok(p) && {
                &&& match account {
                    MinecraftAccount::MsaAccount { name, id, .. } => {
                        &&& p.auth_player_name == name
                        &&& p.auth_uuid@ == uuid_text(id@)
                        &&& p.auth_access_token == access_token
                        &&& p.user_type@ == "msa"@
                    },
                    MinecraftAccount::OfflineAccount { name, id } => {
                        &&& p.auth_player_name == name
                        &&& p.auth_uuid@ == uuid_text(id@)
                        &&& p.auth_access_token@ == "-"@
                        &&& p.user_type@ == "legacy"@
                    },
                }
                &&& p.java_distribution == options.start_options.java_distribution
                &&& p.jvm_args@ == match options.start_options.jvm_args {
                    Some(args) => args@,
                    None => Seq::<String>::empty(),
                }
                &&& p.memory == options.start_options.memory
                &&& p.custom_data_path == if options.start_options.custom_data_path@.len() == 0 {
                    None
                } else {
                    Some(options.start_options.custom_data_path)
                }
                &&& p.auth_xuid == xuid
                &&& p.clientid@ == azure_client_id()
                &&& p.keep_launcher_open == options.launcher_options.keep_launcher_open
                &&& p.concurrent_downloads == options.launcher_options.concurrent_downloads
                &&& p.client_account == options.premium_options.account
                &&& p.skip_advertisement == (options.premium_options.skip_advertisement && is_premium(
                    options.premium_options.account,
                ))
            },
        },
{
    let Options { start_options, version_options: _, launcher_options, premium_options } = options;
    let account = match start_options.minecraft_account {
        Some(account) => account,
        None => {
            let mut message = String::new();
            push_str(&mut message, "no account selected");
            return Err(message);
        },
    };
    let (name, uuid, token, user_type) = match account {
        MinecraftAccount::MsaAccount { state: _, name, id } => {
            let mut user_type = String::new();
            push_str(&mut user_type, "msa");
            (name, uuid_string(&id), access_token, user_type)
        },
        MinecraftAccount::OfflineAccount { name, id } => {
            let mut token = String::new();
            push_str(&mut token, "-");
            let mut user_type = String::new();
            push_str(&mut user_type, "legacy");
            (name, uuid_string(&id), token, user_type)
        },
    };
    let premium = match &premium_options.account {
        Some(a) => match a.get_user_information() {
            Some(u) => u.premium,
            None => false,
        },
        None => false,
    };
    let skip_advertisement = premium_options.skip_advertisement && premium;
    let jvm_args = match start_options.jvm_args {
        Some(args) => args,
        None => Vec::new(),
    };
    let custom_data_path = if start_options.custom_data_path.unicode_len() == 0 {
        None
    } else {
        Some(start_options.custom_data_path)
    };
    let mut clientid = String::new();
    push_str(&mut clientid, "0add8caf-2cc6-4546-b798-c3d171217dd9");
    Ok(StartParameter {
        java_distribution: start_options.java_distribution,
        jvm_args,
        memory: start_options.memory,
        custom_data_path,
        auth_player_name: name,
        auth_uuid: uuid,
        auth_access_token: token,
        auth_xuid: xuid,
        clientid,
        user_type,
        keep_launcher_open: launcher_options.keep_launcher_open,
        concurrent_downloads: launcher_options.concurrent_downloads,
        client_account: premium_options.account,
        skip_advertisement,
    })
}

/// Where the mods the user added for a branch and Minecraft version are kept, as path components
/// below the data directory: `custom_mods/<branch>-<version>`.
pub fn custom_mods_dir(branch: &str, mc_version: &str) -> (r: Vec<String>)
    ensures
        views(r@) == seq!["custom_mods"@, branch@ + "-"@ + mc_version@],
{
    let mut first = String::new();
    push_str(&mut first, "custom_mods");
    let mut second = String::new();
    push_str(&mut second, branch);
    push_str(&mut second, "-");
    push_str(&mut second, mc_version);
    let mut r: Vec<String> = Vec::new();
    r.push(first);
    r.push(second);
    assert(views(r@) =~= seq!["custom_mods"@, branch@ + "-"@ + mc_version@]);
    r
}

} // verus!
