//! The decisions taken while talking to wpa_supplicant: reading event names and
//! peer addresses out of its events, judging its replies, composing its
//! commands, and choosing a receiver from the devices found.
use vstd::prelude::*;

use crate::text::{
    chars_equal_str, chars_of, chars_range, first_index, has_prefix, parse_usize, parse_usize_chars,
    split_words, starts_with, string_from_chars, trim, trim_bounds, trim_start, views, words,
};
use crate::bytes::append_bytes;
use crate::wpa::parser::{group_event_body, group_started, parse_group_started, P2pGroupStarted, P2pRole};

verus! {

/// The text in which an event's name is looked up: `t` after its `<priority>`
/// prefix, or `t` itself where the prefix is not closed.
pub open spec fn event_name_body(t: Seq<char>) -> Seq<char> {
    match group_event_body(t) {
        Some(b) => b,
        None => t,
    }
}

/// The name of the event `e`: the first word after leading white space and an
/// optional `<priority>` prefix.
pub open spec fn spec_event_name(e: Seq<char>) -> Option<Seq<char>> {
    let w = words(event_name_body(trim_start(e)));
    if w.len() > 0 {
        Some(w[0])
    } else {
        None
    }
}

/// The characters of `t` after an optional `<priority>` prefix.
fn name_body(t: &[char]) -> (r: Vec<char>)
    ensures
        r@ == event_name_body(t@),
{
    let e = chars_range(t, 0, t.len());
    assert(e@ =~= t@);
    if e.len() > 0 && e[0] == '<' {
        match crate::text::find_char(&e, 1, '>') {
            Some(k) => {
                proof {
                    let d = e@.drop_first();
                    assert forall|m: int| 0 <= m < k - 1 implies d[m] != '>' by {
                        assert(d[m] == e@[m + 1]);
                    }
                    crate::text::lemma_first_index(d, '>', k - 1);
                }
                let body = chars_range(&e, k + 1, e.len());
                assert(body@ =~= e@.drop_first().subrange(k as int, e@.len() - 1));
                body
            },
            None => {
                proof {
                    let d = e@.drop_first();
                    if exists|m: int| 0 <= m < d.len() && d[m] == '>' {
                        let m = choose|m: int| 0 <= m < d.len() && d[m] == '>';
                        assert(e@[m + 1] == '>');
                    }
                }
                e
            },
        }
    } else {
        e
    }
}

/// The name of a wpa_supplicant event.
pub fn event_name(event: &str) -> (r: Option<String>)
    ensures
        r matches Some(n) ==> spec_event_name(event@) == Some(n@),
        r is None ==> spec_event_name(event@) is None,
{
    let e = chars_of(event);
    let (start, _) = trim_bounds(&e);
    let t = chars_range(&e, start, e.len());
    let body = name_body(&t);
    let w = split_words(&body);
    if w.len() > 0 {
        assert(w@[0]@ == views(w@)[0]);
        Some(string_from_chars(&w[0]))
    } else {
        None
    }
}

/// The first of `ws` that starts with `p`, without `p`.
pub open spec fn first_with_prefix(ws: Seq<Seq<char>>, p: Seq<char>) -> Option<Seq<char>>
    decreases ws.len(),
{
    if ws.len() == 0 {
        None
    } else if has_prefix(ws[0], p) {
        Some(ws[0].subrange(p.len() as int, ws[0].len() as int))
    } else {
        first_with_prefix(ws.drop_first(), p)
    }
}

/// The peer device address in the event `e`: the first word starting with
/// `p2p_dev_addr=`, without that prefix.
pub open spec fn spec_p2p_device_address(e: Seq<char>) -> Option<Seq<char>> {
    first_with_prefix(words(e), "p2p_dev_addr="@)
}

/// The peer device address in a wpa_supplicant event.
pub fn get_p2p_device_address(event: &str) -> (r: Option<String>)
    ensures
        r matches Some(a) ==> spec_p2p_device_address(event@) == Some(a@),
        r is None ==> spec_p2p_device_address(event@) is None,
{
    let e = chars_of(event);
    let w = split_words(&e);
    let prefix = chars_of("p2p_dev_addr=");
    let ghost ws = views(w@);
    assert(ws.subrange(0, ws.len() as int) =~= ws);
    let mut i: usize = 0;
    while i < w.len()
        invariant
            0 <= i <= w@.len(),
            ws == views(w@),
            ws == words(event@),
            prefix@ == "p2p_dev_addr="@,
            first_with_prefix(ws, prefix@) == first_with_prefix(ws.subrange(i as int, ws.len() as int), prefix@),
        decreases w@.len() - i,
    {
        let ghost rest = ws.subrange(i as int, ws.len() as int);
        assert(rest.drop_first() =~= ws.subrange(i + 1, ws.len() as int));
        assert(rest[0] == w@[i as int]@);
        if starts_with(&w[i], "p2p_dev_addr=") {
            let address = chars_range(&w[i], prefix.len(), w[i].len());
            assert(first_with_prefix(rest, prefix@) == Some(address@));
            return Some(string_from_chars(&address));
        }
        i = i + 1;
    }
    assert(ws.subrange(i as int, ws.len() as int) =~= Seq::<Seq<char>>::empty());
    None
}

/// Whether a reply of wpa_supplicant reports success: it is `OK` once trimmed.
pub fn is_ok_response(response: &str) -> (r: bool)
    ensures
        r == (trim(response@) == "OK"@),
{
    let c = chars_of(response);
    let (a, b) = trim_bounds(&c);
    let t = chars_range(&c, a, b);
    chars_equal_str(&t, "OK")
}

/// The views of a vector of strings.
pub open spec fn string_views(v: Seq<String>) -> Seq<Seq<char>> {
    v.map_values(|s: String| s@)
}

/// What the list of found receivers becomes when the event `e` arrives: a
/// "device found" event adds the device's address, unless it is listed already.
pub open spec fn after_device_event(found: Seq<Seq<char>>, e: Seq<char>) -> Seq<Seq<char>> {
    if spec_event_name(e) == Some("P2P-DEVICE-FOUND"@) {
        match spec_p2p_device_address(e) {
            Some(a) => if found.contains(a) {
                found
            } else {
                found.push(a)
            },
            None => found,
        }
    } else {
        found
    }
}

/// Whether the list of strings `v` holds `s`.
fn contains_string(v: &Vec<String>, s: &str) -> (r: bool)
    ensures
        r == string_views(v@).contains(s@),
{
    let target = chars_of(s);
    let mut i: usize = 0;
    while i < v.len()
        invariant
            0 <= i <= v@.len(),
            target@ == s@,
            forall|k: int| 0 <= k < i ==> v@[k]@ != s@,
        decreases v@.len() - i,
    {
        let item = chars_of(v[i].as_str());
        if crate::text::chars_equal(&item, &target) {
            assert(string_views(v@)[i as int] == s@);
            return true;
        }
        i = i + 1;
    }
    proof {
        if string_views(v@).contains(s@) {
            let k = choose|k: int| 0 <= k < string_views(v@).len() && string_views(v@)[k] == s@;
            assert(v@[k]@ == s@);
        }
    }
    false
}

/// Both kinds of connection request, the negotiation request and the
/// push-button provision-discovery request, name the peer in their second word:
/// for every such event with at least two words the answer is that word, and an
/// event of any other kind is no request.
pub proof fn lemma_connection_request_address(event: Seq<char>)
    ensures
        (spec_event_name(event) == Some("P2P-GO-NEG-REQUEST"@) || spec_event_name(event) == Some(
            "P2P-PROV-DISC-PBC-REQ"@,
        )) && words(event).len() >= 2 ==> spec_connection_request(event) == Some(Some(words(event)[1])),
        (spec_event_name(event) == Some("P2P-GO-NEG-REQUEST"@) || spec_event_name(event) == Some(
            "P2P-PROV-DISC-PBC-REQ"@,
        )) && words(event).len() < 2 ==> spec_connection_request(event) == Some(None::<Seq<char>>),
        !(spec_event_name(event) == Some("P2P-GO-NEG-REQUEST"@) || spec_event_name(event) == Some(
            "P2P-PROV-DISC-PBC-REQ"@,
        )) ==> spec_connection_request(event) is None,
{
}

/// The list of found receivers never holds an address twice: noting any event
/// keeps a list without duplicates free of them, and an event whose address is
/// already anywhere in the list leaves the list as it is.
pub proof fn lemma_device_list_unique(found: Seq<Seq<char>>, e: Seq<char>)
    ensures
        found.no_duplicates() ==> after_device_event(found, e).no_duplicates(),
        spec_p2p_device_address(e) matches Some(a) && found.contains(a) ==> after_device_event(found, e) == found,
        after_device_event(found, e).len() <= found.len() + 1,
        forall|i: int| 0 <= i < found.len() ==> #[trigger] after_device_event(found, e)[i] == found[i],
{
    let after = after_device_event(found, e);
    if found.no_duplicates() && after != found {
        let a = spec_p2p_device_address(e)->Some_0;
        assert(after == found.push(a));
        assert forall|i: int, j: int| 0 <= i < after.len() && 0 <= j < after.len() && i != j implies after[i] != after[j] by {
            if i < found.len() && j < found.len() {
            } else if i == found.len() {
                assert(after[i] == a);
                assert(after[j] == found[j]);
            } else {
                assert(after[j] == a);
                assert(after[i] == found[i]);
            }
        }
    }
}

/// Takes note of the wpa_supplicant event `event` while searching for receivers.
pub fn note_device_event(receivers: &mut Vec<String>, event: &str)
    ensures
        string_views(final(receivers)@) == after_device_event(string_views(old(receivers)@), event@),
        string_views(old(receivers)@).no_duplicates() ==> string_views(final(receivers)@).no_duplicates(),
        spec_p2p_device_address(event@) matches Some(a) && string_views(old(receivers)@).contains(a)
            ==> final(receivers)@ == old(receivers)@,
{
    proof {
        lemma_device_list_unique(string_views(receivers@), event@);
    }
    match event_name(event) {
        Some(name) => {
            if chars_equal_str(&chars_of(name.as_str()), "P2P-DEVICE-FOUND") {
                match get_p2p_device_address(event) {
                    Some(address) => {
                        if !contains_string(receivers, address.as_str()) {
                            let ghost before = receivers@;
                            receivers.push(address);
                            assert(string_views(receivers@) =~= string_views(before).push(address@));
                        }
                    },
                    None => {},
                }
            }
        },
        None => {},
    }
}

/// What a wpa_supplicant event means while waiting for a group to form.
pub enum GroupEvent {
    /// The group formed.
    Started(P2pGroupStarted),
    /// Negotiation or formation failed.
    Failed,
    /// Something else.
    Other,
}

/// Whether the event `e` reports a failed group negotiation or formation.
pub open spec fn is_group_failure(e: Seq<char>) -> bool {
    spec_event_name(e) == Some("P2P-GO-NEG-FAILURE"@) || spec_event_name(e) == Some(
        "P2P-GROUP-FORMATION-FAILURE"@,
    )
}

/// What the wpa_supplicant event `event` means while waiting for a group.
pub fn group_event(event: &str) -> (r: GroupEvent)
    ensures
        r matches GroupEvent::Started(g) ==> group_started(event@) == Some(g@),
        r is Failed <==> group_started(event@) is None && is_group_failure(event@),
        r is Other <==> group_started(event@) is None && !is_group_failure(event@),
{
    match parse_group_started(event) {
        Some(group) => GroupEvent::Started(group),
        None => match event_name(event) {
            Some(name) => {
                let n = chars_of(name.as_str());
                if chars_equal_str(&n, "P2P-GO-NEG-FAILURE") || chars_equal_str(
                    &n,
                    "P2P-GROUP-FORMATION-FAILURE",
                ) {
                    GroupEvent::Failed
                } else {
                    GroupEvent::Other
                }
            },
            None => GroupEvent::Other,
        },
    }
}

/// Whether the event `e` is a peer's request to connect.
pub open spec fn is_connection_request(e: Seq<char>) -> bool {
    spec_event_name(e) == Some("P2P-GO-NEG-REQUEST"@) || spec_event_name(e) == Some(
        "P2P-PROV-DISC-PBC-REQ"@,
    )
}

/// Where the event `e` is a connection request: the peer address (the second
/// word of the event), or `None` where it has none.
pub open spec fn spec_connection_request(e: Seq<char>) -> Option<Option<Seq<char>>> {
    if is_connection_request(e) {
        if words(e).len() >= 2 {
            Some(Some(words(e)[1]))
        } else {
            Some(None)
        }
    } else {
        None
    }
}

/// Where the wpa_supplicant event `event` is a peer's request to connect: the
/// peer's address, or `None` inside where the request names none.
pub fn connection_request(event: &str) -> (r: Option<Option<String>>)
    ensures
        r matches Some(Some(a)) ==> spec_connection_request(event@) == Some(Some(a@)),
        r matches Some(None) ==> spec_connection_request(event@) == Some(None::<Seq<char>>),
        r is None ==> spec_connection_request(event@) is None,
        (spec_event_name(event@) == Some("P2P-GO-NEG-REQUEST"@) || spec_event_name(event@) == Some(
            "P2P-PROV-DISC-PBC-REQ"@,
        )) && words(event@).len() >= 2 ==> (r matches Some(Some(a)) && a@ == words(event@)[1]),
        !(spec_event_name(event@) == Some("P2P-GO-NEG-REQUEST"@) || spec_event_name(event@) == Some(
            "P2P-PROV-DISC-PBC-REQ"@,
        )) ==> r is None,
{
    proof {
        lemma_connection_request_address(event@);
    }
    let is_request = match event_name(event) {
        Some(name) => {
            let n = chars_of(name.as_str());
            chars_equal_str(&n, "P2P-GO-NEG-REQUEST") || chars_equal_str(&n, "P2P-PROV-DISC-PBC-REQ")
        },
        None => false,
    };
    if !is_request {
        return None;
    }
    let e = chars_of(event);
    let w = split_words(&e);
    if w.len() >= 2 {
        assert(w@[1]@ == views(w@)[1]);
        Some(Some(string_from_chars(&w[1])))
    } else {
        Some(None)
    }
}

/// The command that asks wpa_supplicant to connect to `address` by push button.
pub fn connect_command(address: &str) -> (r: String)
    ensures
        r@ == "P2P_CONNECT "@ + address@ + " pbc"@,
{
    let mut command = String::from_str("P2P_CONNECT ");
    command.append(address);
    command.append(" pbc");
    command
}

/// The command that asks wpa_supplicant to remove the group on `interface`.
pub fn group_remove_command(interface: &str) -> (r: String)
    ensures
        r@ == "P2P_GROUP_REMOVE "@ + interface@,
{
    let mut command = String::from_str("P2P_GROUP_REMOVE ");
    command.append(interface);
    command
}

/// The receiver that the input `input` selects among `receivers`: the trimmed
/// input must be a number from 1 to the number of receivers.
pub open spec fn spec_select_receiver(receivers: Seq<Seq<char>>, input: Seq<char>) -> Option<Seq<char>> {
    match parse_usize(trim(input)) {
        Some(index) => if 1 <= index <= receivers.len() {
            Some(receivers[index - 1])
        } else {
            None
        },
        None => None,
    }
}

/// The receiver that the user's input `input` selects among `receivers`.
pub fn select_receiver(receivers: &Vec<String>, input: &str) -> (r: Option<String>)
    ensures
        r matches Some(s) ==> spec_select_receiver(string_views(receivers@), input@) == Some(s@),
        r is None ==> spec_select_receiver(string_views(receivers@), input@) is None,
{
    let c = chars_of(input);
    let (a, b) = trim_bounds(&c);
    let t = chars_range(&c, a, b);
    match parse_usize_chars(&t) {
        Some(index) => {
            if index >= 1 && index <= receivers.len() {
                let chosen = chars_of(receivers[index - 1].as_str());
                assert(string_views(receivers@)[index - 1] == receivers@[index - 1]@);
                Some(string_from_chars(&chosen))
            } else {
                None
            }
        },
        None => None,
    }
}

/// Why no wpa_supplicant control socket could be chosen.
#[derive(Debug, Clone, Copy, PartialEq, Eq, Structural)]
pub enum ControlPathError {
    /// The override variable is set but empty.
    EmptyOverride,
    /// More than one wireless interface was found and no override is set.
    MultipleInterfaces,
    /// No wireless interface was found and no override is set.
    NoInterface,
}

/// The directory that holds wpa_supplicant's control sockets.
pub open spec fn control_dir() -> Seq<u8> {
    "/run/wpa_supplicant/"@.map_values(|c: char| c as u8)
}

/// Which control socket to use: the override `path` where it is set (and not
/// empty), else the socket of the one wireless interface among `wireless`.
pub open spec fn spec_control_path(path: Option<Seq<u8>>, wireless: Seq<Seq<u8>>) -> Result<Seq<u8>, ControlPathError> {
    match path {
        Some(p) => if p.len() == 0 {
            Err(ControlPathError::EmptyOverride)
        } else {
            Ok(p)
        },
        None => if wireless.len() == 0 {
            Err(ControlPathError::NoInterface)
        } else if wireless.len() > 1 {
            Err(ControlPathError::MultipleInterfaces)
        } else {
            Ok(control_dir() + wireless[0])
        },
    }
}

/// Chooses the control socket from the override `path` (the bytes of the
/// variable, where it is set) and the names of the wireless interfaces found.
pub fn control_path(path: Option<&[u8]>, wireless: &Vec<Vec<u8>>) -> (r: Result<Vec<u8>, ControlPathError>)
    ensures
        r matches Ok(p) ==> spec_control_path(
            match path { Some(p) => Some(p@), None => None },
            wireless@.map_values(|w: Vec<u8>| w@),
        ) == Ok::<Seq<u8>, ControlPathError>(p@),
        r matches Err(e) ==> spec_control_path(
            match path { Some(p) => Some(p@), None => None },
            wireless@.map_values(|w: Vec<u8>| w@),
        ) == Err::<Seq<u8>, ControlPathError>(e),
{
    match path {
        Some(p) => if p.len() == 0 {
            Err(ControlPathError::EmptyOverride)
        } else {
            Ok(vstd::slice::slice_to_vec(p))
        },
        None => if wireless.len() == 0 {
            Err(ControlPathError::NoInterface)
        } else if wireless.len() > 1 {
            Err(ControlPathError::MultipleInterfaces)
        } else {
            let dir: [u8; 20] = [47u8, 114, 117, 110, 47, 119, 112, 97, 95, 115, 117, 112, 112, 108, 105, 99, 97, 110, 116, 47];
            proof {
                reveal_strlit("/run/wpa_supplicant/");
                assert(dir@ =~= control_dir());
            }
            let mut out = vstd::slice::slice_to_vec(dir.as_slice());
            append_bytes(&mut out, wireless[0].as_slice());
            Ok(out)
        },
    }
}

/// How to open the TCP connection over a formed group.
#[derive(Debug, Clone, Copy, PartialEq, Eq)]
pub enum TcpStep {
    /// Listen for the peer: this device owns the group.
    Listen,
    /// Connect (again) to the group owner at this address.
    Connect([u8; 4]),
    /// The deadline passed: stop trying.
    GiveUp,
}

/// A client of a group whose start event named no owner address.
#[derive(Debug, Clone, Copy, PartialEq, Eq, Structural)]
pub struct NoOwnerAddress;

/// Decides the next step in opening the connection over a formed group: the
/// owner listens, a client connects to the owner's address and tries again until
/// the deadline passes, and a client without that address fails.
pub fn tcp_plan(role: P2pRole, owner_ip: Option<[u8; 4]>, now_ms: u64, deadline_ms: u64) -> (r: Result<TcpStep, NoOwnerAddress>)
    ensures
        r == (match role {
            P2pRole::GroupOwner => Ok(TcpStep::Listen),
            P2pRole::Client => match owner_ip {
                None => Err(NoOwnerAddress),
                Some(ip) => if now_ms < deadline_ms {
                    Ok(TcpStep::Connect(ip))
                } else {
                    Ok(TcpStep::GiveUp)
                },
            },
        }),
{
    match role {
        P2pRole::GroupOwner => Ok(TcpStep::Listen),
        P2pRole::Client => match owner_ip {
            None => Err(NoOwnerAddress),
            Some(ip) => if now_ms < deadline_ms {
                Ok(TcpStep::Connect(ip))
            } else {
                Ok(TcpStep::GiveUp)
            },
        },
    }
}

} // verus!
