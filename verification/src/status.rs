//! Presence/status words.

use vstd::prelude::*;

verus! {

/// The presence word for a stored status type: 0 online, 2 away, 3 do not
/// disturb, anything else offline.
pub open spec fn status_word(status_type: i64) -> Seq<char> {
    if status_type == 0 {
        "online"@
    } else if status_type == 2 {
        "away"@
    } else if status_type == 3 {
        "dnd"@
    } else {
        "offline"@
    }
}

/// The presence word for a stored status type.
pub fn status_from_type(status_type: i64) -> (r: &'static str)
    ensures
        r@ == status_word(status_type),
{
    if status_type == 0 {
        "online"
    } else if status_type == 2 {
        "away"
    } else if status_type == 3 {
        "dnd"
    } else {
        "offline"
    }
}

/// The presence of a user: offline without an active session; a chosen
/// away or do-not-disturb status, or a chosen offline (1), wins; otherwise
/// online while recently active, away while less recently, else offline.
/// `within_online` and `within_away` tell whether the latest activity lies
/// within the online and away windows.
pub open spec fn presence_spec(has_active: bool, status_type: i64, within_online: bool, within_away: bool) -> Seq<char> {
    if !has_active {
        "offline"@
    } else if status_type == 2 || status_type == 3 {
        status_word(status_type)
    } else if status_type == 1 {
        "offline"@
    } else if within_online {
        "online"@
    } else if within_away {
        "away"@
    } else {
        "offline"@
    }
}

/// The presence of a user (see `presence_spec`).
pub fn presence(has_active: bool, status_type: i64, within_online: bool, within_away: bool) -> (r: &'static str)
    ensures
        r@ == presence_spec(has_active, status_type, within_online, within_away),
{
    if !has_active {
        "offline"
    } else if status_type == 2 || status_type == 3 {
        status_from_type(status_type)
    } else if status_type == 1 {
        "offline"
    } else if within_online {
        "online"
    } else if within_away {
        "away"
    } else {
        "offline"
    }
}

/// What others see of a user: nothing but `offline` without an active
/// session; with one, a chosen away or do-not-disturb status is shown as
/// `away` or `dnd` whatever the activity, a chosen offline as `offline`;
/// otherwise `online` while recently active, `away` while less recently,
/// else `offline`.
pub proof fn lemma_presence(has_active: bool, status_type: i64, within_online: bool, within_away: bool)
    ensures
        ({
            let r = presence_spec(has_active, status_type, within_online, within_away);
            &&& !has_active ==> r == "offline"@
            &&& has_active && status_type == 2 ==> r == "away"@
            &&& has_active && status_type == 3 ==> r == "dnd"@
            &&& has_active && status_type == 1 ==> r == "offline"@
            &&& has_active && status_type != 1 && status_type != 2 && status_type != 3 ==> r == (
            if within_online {
                "online"@
            } else if within_away {
                "away"@
            } else {
                "offline"@
            })
        }),
{
}

} // verus!
