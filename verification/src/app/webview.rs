//! The windows the launcher opens in its own web view: the download page behind an
//! advertisement, and Microsoft's sign-in. What to do next is decided here, from what the
//! window reported; the launcher opens, polls and closes the windows.

use vstd::prelude::*;
use crate::utils::text::{decimal, push_decimal, push_str, starts_with, starts_with_spec, str_eq};

verus! {

/// How often the download page is opened before the launcher gives up.
pub const MAX_DOWNLOAD_ATTEMPTS: u8 = 2;

/// Why opening the download page failed for good, for attempts in all.
pub open spec fn download_failed_message(attempts: nat) -> Seq<char> {
    "Failed to open download page after "@ + decimal(attempts)
        + " attempts.\n\nPlease do not close the download window. Instead proceed with the download by pressing on 'Continue' and then 'Download'.\n\nIf the download window does not appear, please try restarting LiquidLauncher with administrator privileges.\nIf this does not help, please install LiquidBounce manually (https://liquidbounce.net/docs/get-started/manual-installation).\nOr try our advice at https://liquidbounce.net/docs/tutorials/fixing-liquidlauncher."@
}

/// The label of attempt `count` to open the download page, or, past the last attempt, why the
/// launcher gives up.
pub fn download_attempt(count: u8) -> (r: Result<String, String>)
    ensures
        count > 2 ==> (r matches Err(message) && message@ == download_failed_message(2)),
        count <= 2 ==> (r matches Ok(label) && label@ == "Opening download page... (Attempt "@
            + decimal(count as nat) + "/"@ + decimal(2) + ")"@),
{
    if count > MAX_DOWNLOAD_ATTEMPTS {
        let mut message = String::new();
        push_str(&mut message, "Failed to open download page after ");
        push_decimal(&mut message, MAX_DOWNLOAD_ATTEMPTS as u64);
        push_str(
            &mut message,
            " attempts.\n\nPlease do not close the download window. Instead proceed with the download by pressing on 'Continue' and then 'Download'.\n\nIf the download window does not appear, please try restarting LiquidLauncher with administrator privileges.\nIf this does not help, please install LiquidBounce manually (https://liquidbounce.net/docs/get-started/manual-installation).\nOr try our advice at https://liquidbounce.net/docs/tutorials/fixing-liquidlauncher.",
        );
        return Err(message);
    }
    let mut label = String::new();
    push_str(&mut label, "Opening download page... (Attempt ");
    push_decimal(&mut label, count as u64);
    push_str(&mut label, "/");
    push_decimal(&mut label, MAX_DOWNLOAD_ATTEMPTS as u64);
    push_str(&mut label, ")");
    Ok(label)
}

/// What waiting on a window comes to at one look.
pub enum Wait {
    /// Look again shortly.
    Pending,
    /// The window gave what it was opened for.
    Done(String),
    /// The window is closed, or gone, or took too long.
    Failed(String),
}

/// The download window, at one look: the file it reported, or that it was closed (by the user,
/// who is asked not to, or otherwise), or keep waiting.
pub fn download_view_wait(pid: Option<String>, close_requested: bool, visible: bool) -> (r: Wait)
    ensures
        match pid {
            Some(p) => r == Wait::Done(p),
            None => if close_requested {
                r matches Wait::Failed(m) && m@
                    == "Download view was closed before the file PID was received. Aborting download..."@
            } else if !visible {
                r matches Wait::Failed(m) && m@ == "Download view was closed unexpected"@
            } else {
                r is Pending
            },
        },
{
    if let Some(p) = pid {
        return Wait::Done(p);
    }
    let mut message = String::new();
    if close_requested {
        push_str(&mut message, "Download view was closed before the file PID was received. Aborting download...");
        return Wait::Failed(message);
    }
    if !visible {
        push_str(&mut message, "Download view was closed unexpected");
        return Wait::Failed(message);
    }
    Wait::Pending
}

/// How long the sign-in may take, in milliseconds.
pub const MSA_LOGIN_TIMEOUT_MILLIS: u64 = 300000;

/// The sign-in window, at one look: the address Microsoft finished on, or that it was closed,
/// is gone or took longer than five minutes, or keep waiting.
pub fn login_wait(redirect: Option<String>, close_requested: bool, alive: bool, elapsed_millis: u64) -> (r: Wait)
    ensures
        match redirect {
            Some(url) => r == Wait::Done(url),
            None => if close_requested {
                r matches Wait::Failed(m) && m@ == "Microsoft sign-in window was closed before completing sign-in."@
            } else if !alive {
                r matches Wait::Failed(m) && m@ == "Microsoft sign-in window was closed unexpectedly."@
            } else if elapsed_millis > 300000 {
                r matches Wait::Failed(m) && m@ == "Microsoft sign-in timed out."@
            } else {
                r is Pending
            },
        },
{
    if let Some(url) = redirect {
        return Wait::Done(url);
    }
    let mut message = String::new();
    if close_requested {
        push_str(&mut message, "Microsoft sign-in window was closed before completing sign-in.");
        return Wait::Failed(message);
    }
    if !alive {
        push_str(&mut message, "Microsoft sign-in window was closed unexpectedly.");
        return Wait::Failed(message);
    }
    if elapsed_millis > MSA_LOGIN_TIMEOUT_MILLIS {
        push_str(&mut message, "Microsoft sign-in timed out.");
        return Wait::Failed(message);
    }
    Wait::Pending
}

/// Whether the sign-in window navigates to where Microsoft ends the sign-in: the completion
/// address, or any address whose scheme is not the web's, which the view cannot follow.
pub open spec fn is_completion_redirect_spec(url: Seq<char>, scheme: Seq<char>, redirect_prefix: Seq<char>) -> bool {
    starts_with_spec(url, redirect_prefix) || !(scheme == "https"@ || scheme == "http"@)
}

pub fn is_completion_redirect(url: &str, scheme: &str, redirect_prefix: &str) -> (r: bool)
    ensures
        r == is_completion_redirect_spec(url@, scheme@, redirect_prefix@),
{
    starts_with(url, redirect_prefix) || !(str_eq(scheme, "https") || str_eq(scheme, "http"))
}

} // verus!
