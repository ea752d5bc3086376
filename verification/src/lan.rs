//! LAN discovery: the decisions and messages of the nodes page and of the
//! discovery service controls.

use vstd::prelude::*;
use vstd::string::StrSliceExecFns;
use crate::text::{
    newline_pieces, split_newlines, views, chars_of, concat_str, decimal, decimal_chars, lower, parse_u64, parse_u64_spec, push_chars,
    push_str, string_of, to_ascii_lower, trim, trim_spec,
};

verus! {

/// Whether `needle` occurs in `hay` at index `i`.
pub open spec fn occurs_at(hay: Seq<char>, needle: Seq<char>, i: int) -> bool {
    0 <= i && i + needle.len() <= hay.len() && hay.subrange(i, i + needle.len()) == needle
}

/// Whether `needle` occurs in `hay` (what `str::contains` tests).
pub open spec fn contains_seq(hay: Seq<char>, needle: Seq<char>) -> bool {
    exists|i: int| occurs_at(hay, needle, i)
}

fn matches_at(hay: &Vec<char>, needle: &Vec<char>, i: usize) -> (r: bool)
    requires
        i + needle.len() <= hay.len(),
    ensures
        r == occurs_at(hay@, needle@, i as int),
{
    let mut k: usize = 0;
    while k < needle.len()
        invariant
            k <= needle.len(),
            i + needle.len() <= hay.len(),
            hay@.subrange(i as int, i + k) == needle@.take(k as int),
        decreases needle.len() - k,
    {
        if hay[i + k] != needle[k] {
            assert(hay@.subrange(i as int, i + needle@.len())[k as int] != needle@[k as int]);
            return false;
        }
        k = k + 1;
        assert(hay@.subrange(i as int, i + k) =~= needle@.take(k as int));
    }
    assert(needle@.take(k as int) =~= needle@);
    true
}

/// Whether `needle` occurs in `hay`.
pub fn contains_chars(hay: &Vec<char>, needle: &Vec<char>) -> (r: bool)
    ensures
        r == contains_seq(hay@, needle@),
{
    if needle.len() > hay.len() {
        return false;
    }
    let last = hay.len() - needle.len();
    let mut i: usize = 0;
    while i <= last
        invariant
            last + needle.len() == hay.len(),
            forall|j: int| 0 <= j < i ==> !occurs_at(hay@, needle@, j),
        decreases last + 1 - i,
    {
        if matches_at(hay, needle, i) {
            return true;
        }
        if i == last {
            assert forall|j: int| !occurs_at(hay@, needle@, j) by {
                if 0 <= j <= last {
                    assert(j < i || j == i);
                }
            }
            return false;
        }
        i = i + 1;
    }
    assert forall|j: int| !occurs_at(hay@, needle@, j) by {
        if 0 <= j <= last {
            assert(j < i);
        }
    }
    false
}

/// The feedback line after trying to start the discovery service, and the
/// error to offer a "kill the old process" prompt for: one whose lower-case
/// form mentions `address already in use` or `port`.
pub open spec fn start_outcome_spec(result: Result<(), Seq<char>>) -> (Seq<char>, Option<Seq<char>>) {
    match result {
        Ok(_) => ("LAN discovery service started."@, None),
        Err(e) => (
            "Failed to start LAN discovery service: "@ + e,
            if contains_seq(lower(e), "address already in use"@) || contains_seq(lower(e), "port"@) {
                Some(e)
            } else {
                None
            },
        ),
    }
}

/// The feedback and the port prompt after trying to start the discovery
/// service (see [`start_outcome_spec`]).
pub fn start_service_outcome(result: &Result<(), String>) -> (r: (String, Option<String>))
    ensures
        r.0@ == start_outcome_spec(
            match result {
                Ok(_) => Ok(()),
                Err(e) => Err(e@),
            },
        ).0,
        match start_outcome_spec(
            match result {
                Ok(_) => Ok(()),
                Err(e) => Err(e@),
            },
        ).1 {
            Some(p) => r.1 is Some && r.1->0@ == p,
            None => r.1 is None,
        },
{
    match result {
        Ok(_) => ("LAN discovery service started.".to_owned(), None),
        Err(e) => {
            let feedback = concat_str("Failed to start LAN discovery service: ", e.as_str());
            let low = to_ascii_lower(&chars_of(e.as_str()));
            let in_use = chars_of("address already in use");
            let port = chars_of("port");
            let prompt = if contains_chars(&low, &in_use) || contains_chars(&low, &port) {
                Some(e.clone())
            } else {
                None
            };
            (feedback, prompt)
        },
    }
}

/// A button of a known peer's row: its label and the `lan.node` subcommand it runs.
pub struct PeerAction {
    pub label: &'static str,
    pub subcommand: &'static str,
}

/// The buttons of a known peer's row, by the peer's status.
pub open spec fn peer_actions_spec(status: Seq<char>) -> Seq<(Seq<char>, Seq<char>)> {
    if status == "pending-inbound"@ {
        seq![("Accept"@, "accept"@), ("Reject"@, "reject"@)]
    } else if status == "pending-outbound"@ {
        seq![("Connect"@, "connect"@), ("Reject"@, "reject"@)]
    } else if status == "connected"@ {
        seq![("Save"@, "save"@)]
    } else {
        seq![("Pair again"@, "pair"@)]
    }
}

fn action(label: &'static str, subcommand: &'static str) -> (a: PeerAction)
    ensures
        a.label@ == label@,
        a.subcommand@ == subcommand@,
{
    PeerAction { label, subcommand }
}

/// The buttons of a known peer's row (see [`peer_actions_spec`]).
pub fn peer_actions(status: &str) -> (r: Vec<PeerAction>)
    ensures
        r@.map_values(|a: PeerAction| (a.label@, a.subcommand@)) == peer_actions_spec(status@),
{
    let s = chars_of(status);
    let mut v: Vec<PeerAction> = Vec::new();
    if crate::text::chars_eq_str(&s, "pending-inbound") {
        v.push(action("Accept", "accept"));
        v.push(action("Reject", "reject"));
    } else if crate::text::chars_eq_str(&s, "pending-outbound") {
        v.push(action("Connect", "connect"));
        v.push(action("Reject", "reject"));
    } else if crate::text::chars_eq_str(&s, "connected") {
        v.push(action("Save", "save"));
    } else {
        v.push(action("Pair again", "pair"));
    }
    assert(v@.map_values(|a: PeerAction| (a.label@, a.subcommand@)) =~= peer_actions_spec(status@));
    v
}

/// The line shown after a `lan.*` command run from the nodes page.
pub fn lan_execute_feedback(token: &str, result: &Result<Option<String>, String>) -> (r: String)
    ensures
        r@ == match result {
            Ok(Some(m)) => m@,
            Ok(None) => "Unknown command: "@ + token@,
            Err(e) => e@,
        },
{
    match result {
        Ok(Some(m)) => m.clone(),
        Ok(None) => concat_str("Unknown command: ", token),
        Err(e) => e.clone(),
    }
}

/// The line shown after a broadcast scan that found `n` peers.
pub fn scan_feedback(n: u64) -> (r: String)
    ensures
        r@ == "Scan finished — "@ + decimal(n as nat) + " peer(s)."@,
{
    let mut out = chars_of("Scan finished — ");
    push_chars(&mut out, &decimal_chars(n));
    push_str(&mut out, " peer(s).");
    string_of(&out)
}

/// A decimal `u32` as `str::parse::<u32>` reads it.
pub open spec fn parse_u32_spec(s: Seq<char>) -> Option<u32> {
    match parse_u64_spec(s) {
        Some(v) => if v <= u32::MAX {
            Some(v as u32)
        } else {
            None
        },
        None => None,
    }
}

/// The process ids named by the lines of `lsof -t` output, other than the
/// current process: each line that, trimmed, is a decimal `u32`.
pub open spec fn pids_spec(pieces: Seq<Seq<char>>, current: u32) -> Seq<u32>
    decreases pieces.len(),
{
    if pieces.len() == 0 {
        Seq::empty()
    } else {
        pids_spec(pieces.drop_last(), current) + match parse_u32_spec(trim_spec(pieces.last())) {
            Some(pid) => if pid != current {
                seq![pid]
            } else {
                Seq::empty()
            },
            None => Seq::empty(),
        }
    }
}

fn piece_pid(piece: &Vec<char>, current: u32) -> (r: Option<u32>)
    ensures
        r == match parse_u32_spec(trim_spec(piece@)) {
            Some(pid) => if pid != current {
                Some(pid)
            } else {
                None
            },
            None => None,
        },
{
    let t = trim(piece);
    match parse_u64(&t) {
        Some(v) => if v <= 0xffff_ffffu64 {
            let pid = v as u32;
            if pid != current {
                Some(pid)
            } else {
                None
            }
        } else {
            None
        },
        None => None,
    }
}

/// The process ids that `lsof -t` printed, other than `current` (see [`pids_spec`]).
pub fn lsof_candidate_pids(stdout: &str, current: u32) -> (r: Vec<u32>)
    ensures
        r@ == pids_spec(newline_pieces(stdout@), current),
{
    let pieces = split_newlines(&chars_of(stdout));
    let ghost all = views(pieces@);
    let mut out: Vec<u32> = Vec::new();
    let mut i: usize = 0;
    assert(all.take(0) =~= Seq::<Seq<char>>::empty());
    while i < pieces.len()
        invariant
            i <= pieces@.len(),
            all == views(pieces@),
            out@ == pids_spec(all.take(i as int), current),
        decreases pieces.len() - i,
    {
        assert(all.take(i + 1).drop_last() =~= all.take(i as int));
        assert(all.take(i + 1).last() == pieces@[i as int]@);
        match piece_pid(&pieces[i], current) {
            Some(pid) => {
                out.push(pid);
            },
            None => {},
        }
        i = i + 1;
        assert(out@ =~= pids_spec(all.take(i as int), current));
    }
    assert(all.take(i as int) =~= all);
    out
}

/// Whether a process command line (as `ps -o command=` prints it) belongs
/// to Arcadia: its lower-case form contains `arcadia`.
pub fn is_arcadia_command(command_text: &str) -> (r: bool)
    ensures
        r == contains_seq(lower(command_text@), "arcadia"@),
{
    let low = to_ascii_lower(&chars_of(command_text));
    contains_chars(&low, &chars_of("arcadia"))
}


/// The current process is never among the processes to terminate.
pub proof fn law_current_process_spared(pieces: Seq<Seq<char>>, current: u32)
    ensures
        forall|k: int| 0 <= k < pids_spec(pieces, current).len() ==> #[trigger] pids_spec(pieces, current)[k]
            != current,
    decreases pieces.len(),
{
    if pieces.len() > 0 {
        law_current_process_spared(pieces.drop_last(), current);
        let a = pids_spec(pieces.drop_last(), current);
        let all = pids_spec(pieces, current);
        assert forall|k: int| 0 <= k < all.len() implies #[trigger] all[k] != current by {
            if k < a.len() {
                assert(all[k] == a[k]);
            }
        }
    }
}


/// The process ids to inspect after `lsof` ran: an error when it failed
/// without printing anything, else the ids it printed other than `current`.
pub fn lsof_outcome(success: bool, stdout: &str, port: u16, current: u32) -> (r: Result<Vec<u32>, String>)
    ensures
        !success && stdout@.len() == 0 ==> r is Err && r->Err_0@ == "No process currently owns UDP "@
            + decimal(port as nat) + "."@,
        success || stdout@.len() > 0 ==> r is Ok && r->Ok_0@ == pids_spec(newline_pieces(stdout@), current),
{
    if !success && stdout.unicode_len() == 0 {
        let mut msg = chars_of("No process currently owns UDP ");
        push_chars(&mut msg, &decimal_chars(port as u64));
        push_str(&mut msg, ".");
        return Err(string_of(&msg));
    }
    Ok(lsof_candidate_pids(stdout, current))
}

/// The result of terminating the old Arcadia processes on `port`: an error
/// when none was found.
pub fn kill_outcome(killed_any: bool, port: u16) -> (r: Result<(), String>)
    ensures
        killed_any ==> r is Ok,
        !killed_any ==> r is Err && r->Err_0@ == "No existing Arcadia process found owning UDP "@
            + decimal(port as nat) + "."@,
{
    if killed_any {
        return Ok(());
    }
    let mut msg = chars_of("No existing Arcadia process found owning UDP ");
    push_chars(&mut msg, &decimal_chars(port as u64));
    push_str(&mut msg, ".");
    Err(string_of(&msg))
}


/// Whether the button label `label` names the `lan.node` subcommand `cmd`:
/// the label begins with the subcommand, in any ASCII case, as a whole word
/// (the label ends there or a space follows).
pub open spec fn label_names_subcommand(label: Seq<char>, cmd: Seq<char>) -> bool {
    &&& 0 < cmd.len() <= label.len()
    &&& lower(label.take(cmd.len() as int)) == cmd
    &&& cmd.len() == label.len() || label[cmd.len() as int] == ' '
}

proof fn lemma_label_names(label: Seq<char>, cmd: Seq<char>)
    requires
        0 < cmd.len() <= label.len(),
        forall|i: int| 0 <= i < cmd.len() ==> crate::text::lower_char(#[trigger] label[i]) == cmd[i],
        cmd.len() == label.len() || label[cmd.len() as int] == ' ',
    ensures
        label_names_subcommand(label, cmd),
{
    assert(lower(label.take(cmd.len() as int)) =~= cmd);
}

/// Every button of a known peer's row runs the `lan.node` subcommand that
/// its label names: `Connect` runs `connect`, `Accept` `accept`, `Reject`
/// `reject`, `Save` `save` and `Pair again` `pair`.
pub proof fn law_buttons_run_what_they_name(status: Seq<char>)
    ensures
        forall|k: int|
            0 <= k < peer_actions_spec(status).len() ==> label_names_subcommand(
                #[trigger] peer_actions_spec(status)[k].0,
                peer_actions_spec(status)[k].1,
            ),
{
    reveal_strlit("Accept");
    reveal_strlit("accept");
    reveal_strlit("Reject");
    reveal_strlit("reject");
    reveal_strlit("Connect");
    reveal_strlit("connect");
    reveal_strlit("Save");
    reveal_strlit("save");
    reveal_strlit("Pair again");
    reveal_strlit("pair");
    lemma_label_names("Accept"@, "accept"@);
    lemma_label_names("Reject"@, "reject"@);
    lemma_label_names("Connect"@, "connect"@);
    lemma_label_names("Save"@, "save"@);
    lemma_label_names("Pair again"@, "pair"@);
}

} // verus!
