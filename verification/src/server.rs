//! Bookkeeping for the connected server: the channel tree, the user table,
//! our own session, and name-based channel lookup.

use vstd::prelude::*;
use crate::error::ChannelIdentifierError;

verus! {

/// One channel of the server's tree: its display name and its parent, if it
/// is not a root.
#[derive(Debug)]
pub struct Channel {
    pub name: String,
    pub parent: Option<u32>,
}

/// One connected user: display name and the channel they sit in.
#[derive(Debug)]
pub struct User {
    pub name: String,
    pub channel: u32,
}

/// Fields a channel-state message may carry.
pub struct ChannelStateMsg {
    pub channel_id: Option<u32>,
    pub name: Option<String>,
    pub parent: Option<u32>,
}

/// Fields a channel-remove message may carry.
pub struct ChannelRemoveMsg {
    pub channel_id: Option<u32>,
}

/// Whether channel id `id` is present.
pub open spec fn has_chan(channels: Seq<(u32, Channel)>, id: u32) -> bool {
    exists|i: int| 0 <= i < channels.len() && channels[i].0 == id
}

/// Index of channel id `id` (meaningful under unique ids and presence).
pub open spec fn chan_index(channels: Seq<(u32, Channel)>, id: u32) -> int {
    choose|i: int| 0 <= i < channels.len() && channels[i].0 == id
}

/// The full path of a channel: the names of its ancestors and itself,
/// joined by slashes. `fuel` bounds the parent walk so that a malformed
/// (cyclic) parent chain still has a defined, finite path.
pub open spec fn channel_path_spec(channels: Seq<(u32, Channel)>, id: u32, fuel: nat) -> Seq<char>
    decreases fuel,
{
    if !has_chan(channels, id) {
        Seq::empty()
    } else {
        let ch = channels[chan_index(channels, id)].1;
        match ch.parent {
            None => ch.name@,
            Some(p) => {
                if fuel == 0 {
                    ch.name@
                } else {
                    channel_path_spec(channels, p, (fuel - 1) as nat) + "/"@ + ch.name@
                }
            },
        }
    }
}

/// Index of user `session` in a user table (meaningful under unique ids
/// and presence).
pub open spec fn user_idx(users: Seq<(u32, User)>, session: u32) -> int {
    choose|i: int| 0 <= i < users.len() && users[i].0 == session
}

/// ASCII lowercase folding of one character. Folding is deliberately
/// ASCII-only: a channel name outside ASCII is matched exactly, never
/// case-insensitively.
pub open spec fn lower_char(c: char) -> char {
    if 65 <= c as u32 <= 90 {
        ((c as u32 + 32) as u8) as char
    } else {
        c
    }
}

/// ASCII lowercase folding of a character sequence.
pub open spec fn lower_seq(s: Seq<char>) -> Seq<char> {
    Seq::new(s.len(), |i: int| lower_char(s[i]))
}

/// `needle` is a suffix of `hay`.
pub open spec fn suffix_of(needle: Seq<char>, hay: Seq<char>) -> bool {
    needle.len() <= hay.len() && hay.skip(hay.len() - needle.len()) == needle
}

/// Whether the channel at index `i` matches the identifier: its full path
/// ends with the identifier, exactly or — for the soft pass — after ASCII
/// lowercase folding of both sides.
pub open spec fn channel_matches(
    channels: Seq<(u32, Channel)>,
    i: int,
    needle: Seq<char>,
    soft: bool,
) -> bool {
    let path = channel_path_spec(channels, channels[i].0, channels.len());
    if soft {
        suffix_of(lower_seq(needle), lower_seq(path))
    } else {
        suffix_of(needle, path)
    }
}

/// How many of the first `k` channels match the identifier.
pub open spec fn match_count(
    channels: Seq<(u32, Channel)>,
    k: int,
    needle: Seq<char>,
    soft: bool,
) -> int
    decreases k,
{
    if k <= 0 {
        0
    } else {
        match_count(channels, k - 1, needle, soft) + (if channel_matches(
            channels,
            k - 1,
            needle,
            soft,
        ) {
            1int
        } else {
            0int
        })
    }
}

/// The characters of `s`, one by one.
fn str_to_chars(s: &str) -> (r: Vec<char>)
    ensures
        r@ == s@,
{
    let n = s.unicode_len();
    let mut out: Vec<char> = Vec::new();
    let mut i: usize = 0;
    while i < n
        invariant
            i <= n,
            n == s@.len(),
            out@.len() == i,
            forall|q: int| 0 <= q < i ==> out@[q] == s@[q],
        decreases n - i,
    {
        out.push(s.get_char(i));
        i = i + 1;
    }
    proof {
        assert(out@ =~= s@);
    }
    out
}

/// Executable ASCII lowercase folding.
fn lower_chars(v: &Vec<char>) -> (r: Vec<char>)
    ensures
        r@ == lower_seq(v@),
{
    let mut out: Vec<char> = Vec::new();
    let mut i: usize = 0;
    while i < v.len()
        invariant
            i <= v@.len(),
            out@.len() == i,
            forall|q: int| 0 <= q < i ==> out@[q] == lower_char(v@[q]),
        decreases v@.len() - i,
    {
        let c = v[i];
        let u = c as u32;
        if 65 <= u && u <= 90 {
            out.push(((u + 32) as u8) as char);
        } else {
            out.push(c);
        }
        i = i + 1;
    }
    proof {
        assert(out@ =~= lower_seq(v@));
    }
    out
}

/// Executable suffix test.
fn is_suffix(needle: &Vec<char>, hay: &Vec<char>) -> (r: bool)
    ensures
        r == suffix_of(needle@, hay@),
{
    if needle.len() > hay.len() {
        return false;
    }
    let off = hay.len() - needle.len();
    let mut i: usize = 0;
    while i < needle.len()
        invariant
            i <= needle@.len(),
            needle@.len() <= hay@.len(),
            hay@.len() <= usize::MAX,
            off == hay@.len() - needle@.len(),
            forall|q: int| 0 <= q < i ==> hay@[off + q] == needle@[q],
        decreases needle@.len() - i,
    {
        if hay[off + i] != needle[i] {
            proof {
                assert(hay@.skip(off as int)[i as int] != needle@[i as int]);
            }
            return false;
        }
        i = i + 1;
    }
    proof {
        assert(hay@.skip(off as int) =~= needle@);
    }
    true
}

/// All bookkeeping for one connected server.
pub struct ConnectedServer {
    channels: Vec<(u32, Channel)>,
    users: Vec<(u32, User)>,
    pub welcome_text: Option<String>,
    username: Option<String>,
    password: Option<String>,
    session_id: Option<u32>,
    muted: bool,
    deafened: bool,
    host: Option<String>,
}

impl ConnectedServer {
    pub closed spec fn channels_view(&self) -> Seq<(u32, Channel)> {
        self.channels@
    }

    pub closed spec fn welcome_text_spec(&self) -> Option<String> {
        self.welcome_text
    }

    pub closed spec fn users_view(&self) -> Seq<(u32, User)> {
        self.users@
    }

    pub closed spec fn username_spec(&self) -> Option<String> {
        self.username
    }

    pub closed spec fn password_spec(&self) -> Option<String> {
        self.password
    }

    pub closed spec fn session_id_spec(&self) -> Option<u32> {
        self.session_id
    }

    pub closed spec fn muted_spec(&self) -> bool {
        self.muted
    }

    pub closed spec fn deafened_spec(&self) -> bool {
        self.deafened
    }

    pub closed spec fn host_spec(&self) -> Option<String> {
        self.host
    }

    /// Channel ids and user ids are unique.
    pub open spec fn wf(&self) -> bool {
        &&& forall|i: int, j: int|
            0 <= i < j < self.channels_view().len() ==> self.channels_view()[i].0
                != self.channels_view()[j].0
        &&& forall|i: int, j: int|
            0 <= i < j < self.users_view().len() ==> self.users_view()[i].0
                != self.users_view()[j].0
    }

    /// A server with nothing known about it yet.
    pub fn new() -> (r: ConnectedServer)
        ensures
            r.wf(),
            r.channels_view().len() == 0,
            r.users_view().len() == 0,
            r.welcome_text_spec() is None,
            r.username_spec() is None,
            r.password_spec() is None,
            r.session_id_spec() is None,
            !r.muted_spec(),
            !r.deafened_spec(),
            r.host_spec() is None,
    {
        ConnectedServer {
            channels: Vec::new(),
            users: Vec::new(),
            welcome_text: None,
            username: None,
            password: None,
            session_id: None,
            muted: false,
            deafened: false,
            host: None,
        }
    }

    /// Keep the welcome text of the server-sync message, if it carries one.
    pub fn parse_server_sync(&mut self, welcome_text: Option<String>)
        ensures
            old(self).wf() ==> final(self).wf(),
            welcome_text is Some ==> final(self).welcome_text_spec() == welcome_text,
            welcome_text is None ==> final(self).welcome_text_spec() == old(self).welcome_text_spec(),
            final(self).channels_view() == old(self).channels_view(),
            final(self).users_view() == old(self).users_view(),
    {
        match welcome_text {
            Some(text) => {
                self.welcome_text = Some(text);
            },
            None => {},
        }
        proof {
            assert(self.channels@ == old(self).channels@);
            assert(self.users@ == old(self).users@);
            if old(self).wf() {
                assert forall|i: int, j: int|
                    0 <= i < j < self.channels@.len() implies self.channels@[i].0
                    != self.channels@[j].0 by {
                    assert(old(self).channels_view()[i].0 != old(self).channels_view()[j].0);
                }
                assert forall|i: int, j: int|
                    0 <= i < j < self.users@.len() implies self.users@[i].0 != self.users@[j].0 by {
                    assert(old(self).users_view()[i].0 != old(self).users_view()[j].0);
                }
            }
        }
    }

    /// Index of channel `id`, if present.
    fn find_channel(&self, id: u32) -> (r: Option<usize>)
        ensures
            match r {
                Some(i) => i < self.channels_view().len() && self.channels_view()[i as int].0 == id,
                None => !has_chan(self.channels_view(), id),
            },
    {
        let mut i: usize = 0;
        while i < self.channels.len()
            invariant
                i <= self.channels@.len(),
                forall|j: int| 0 <= j < i ==> self.channels@[j].0 != id,
            decreases self.channels@.len() - i,
        {
            if self.channels[i].0 == id {
                return Some(i);
            }
            i = i + 1;
        }
        None
    }

    /// Apply a channel-state message: without a channel id it is ignored; a
    /// new id inserts a channel built from the message; a known id updates
    /// the fields the message carries.
    pub fn parse_channel_state(&mut self, msg: ChannelStateMsg)
        requires
            old(self).wf(),
        ensures
            final(self).wf(),
            final(self).users_view() == old(self).users_view(),
            final(self).username_spec() == old(self).username_spec(),
            final(self).password_spec() == old(self).password_spec(),
            final(self).host_spec() == old(self).host_spec(),
            final(self).session_id_spec() == old(self).session_id_spec(),
            final(self).welcome_text_spec() == old(self).welcome_text_spec(),
            final(self).muted_spec() == old(self).muted_spec(),
            final(self).deafened_spec() == old(self).deafened_spec(),
            (match msg.channel_id {
                None => final(self).channels_view() == old(self).channels_view(),
                Some(id) => {
                    &&& !has_chan(old(self).channels_view(), id) ==> {
                        &&& final(self).channels_view().len() == old(self).channels_view().len()
                            + 1
                        &&& final(self).channels_view().drop_last() == old(self).channels_view()
                        &&& final(self).channels_view().last().0 == id
                        &&& final(self).channels_view().last().1.name@ == (match msg.name {
                            Some(n) => n@,
                            None => Seq::<char>::empty(),
                        })
                        &&& final(self).channels_view().last().1.parent == msg.parent
                    }
                    &&& has_chan(old(self).channels_view(), id) ==> {
                        let ci = chan_index(old(self).channels_view(), id);
                        &&& final(self).channels_view().len() == old(self).channels_view().len()
                        &&& forall|k: int|
                            0 <= k < old(self).channels_view().len() && k != ci ==> (
                            #[trigger] final(self).channels_view()[k]) == old(self).channels_view()[k]
                        &&& final(self).channels_view()[ci].0 == id
                        &&& final(self).channels_view()[ci].1.name@ == (match msg.name {
                            Some(n) => n@,
                            None => old(self).channels_view()[ci].1.name@,
                        })
                        &&& final(self).channels_view()[ci].1.parent == (match msg.parent {
                            Some(p) => Some(p),
                            None => old(self).channels_view()[ci].1.parent,
                        })
                    }
                },
            }),
    {
        let id = match msg.channel_id {
            Some(id) => id,
            None => {
                return ;
            },
        };
        match self.find_channel(id) {
            Some(i) => {
                proof {
                    let chans = old(self).channels_view();
                    assert(0 <= chan_index(chans, id) < chans.len() && chans[chan_index(
                        chans,
                        id,
                    )].0 == id);
                    assert(chan_index(chans, id) == i);
                }
                let (cid, ch) = self.channels.remove(i);
                let name = match msg.name {
                    Some(n) => n,
                    None => ch.name,
                };
                let parent = match msg.parent {
                    Some(p) => Some(p),
                    None => ch.parent,
                };
                self.channels.insert(i, (cid, Channel { name, parent }));
                proof {
                    assert forall|k: int|
                        0 <= k < self.channels@.len() && k != i implies (#[trigger] self
                            .channels@[k]) == old(self).channels_view()[k] by {
                        assert(self.channels@ == old(self).channels_view().remove(i as int).insert(
                            i as int,
                            self.channels@[i as int],
                        ));
                    }
                    assert forall|a: int, b: int|
                        0 <= a < b < self.channels@.len() implies self.channels@[a].0
                        != self.channels@[b].0 by {
                        assert(self.channels@[a].0 == old(self).channels_view()[a].0);
                        assert(self.channels@[b].0 == old(self).channels_view()[b].0);
                        assert(old(self).channels_view()[a].0 != old(self).channels_view()[b].0);
                    }
                }
            },
            None => {
                let name = match msg.name {
                    Some(n) => n,
                    None => String::new(),
                };
                self.channels.push((id, Channel { name, parent: msg.parent }));
                proof {
                    assert(self.channels@.drop_last() =~= old(self).channels_view());
                    assert forall|a: int, b: int|
                        0 <= a < b < self.channels@.len() implies self.channels@[a].0
                        != self.channels@[b].0 by {
                        if b < self.channels@.len() - 1 {
                            assert(old(self).channels_view()[a].0 != old(self).channels_view()[b].0);
                        } else {
                            assert(self.channels@[a] == old(self).channels_view()[a]);
                            assert(!has_chan(old(self).channels_view(), id));
                        }
                    }
                }
            },
        }
        proof {
            assert(self.users@ == old(self).users@);
            assert forall|a: int, b: int|
                0 <= a < b < self.users@.len() implies self.users@[a].0 != self.users@[b].0 by {
                assert(old(self).users_view()[a].0 != old(self).users_view()[b].0);
            }
        }
    }

    /// Apply a channel-remove message: the named channel disappears; a
    /// message without an id, or naming an unknown channel, changes
    /// nothing.
    pub fn parse_channel_remove(&mut self, msg: ChannelRemoveMsg)
        requires
            old(self).wf(),
        ensures
            final(self).wf(),
            final(self).users_view() == old(self).users_view(),
            final(self).username_spec() == old(self).username_spec(),
            final(self).password_spec() == old(self).password_spec(),
            final(self).host_spec() == old(self).host_spec(),
            final(self).session_id_spec() == old(self).session_id_spec(),
            final(self).welcome_text_spec() == old(self).welcome_text_spec(),
            final(self).muted_spec() == old(self).muted_spec(),
            final(self).deafened_spec() == old(self).deafened_spec(),
            (match msg.channel_id {
                None => final(self).channels_view() == old(self).channels_view(),
                Some(id) => {
                    &&& !has_chan(old(self).channels_view(), id) ==> final(self).channels_view()
                        == old(self).channels_view()
                    &&& has_chan(old(self).channels_view(), id) ==> final(self).channels_view()
                        == old(self).channels_view().remove(
                        chan_index(old(self).channels_view(), id),
                    ) && !has_chan(final(self).channels_view(), id)
                },
            }),
    {
        let id = match msg.channel_id {
            Some(id) => id,
            None => {
                return ;
            },
        };
        match self.find_channel(id) {
            Some(i) => {
                proof {
                    let chans = old(self).channels_view();
                    assert(0 <= chan_index(chans, id) < chans.len() && chans[chan_index(
                        chans,
                        id,
                    )].0 == id);
                    assert(chan_index(chans, id) == i);
                }
                self.channels.remove(i);
                proof {
                    let chans = old(self).channels_view();
                    assert forall|k: int|
                        0 <= k < self.channels@.len() implies (#[trigger] self.channels@[k]) == (
                        if k < i as int {
                            chans[k]
                        } else {
                            chans[k + 1]
                        }) by {}
                    assert forall|k: int|
                        0 <= k < self.channels@.len() implies self.channels@[k].0 != id by {
                        if k < i as int {
                        } else {
                            assert(chans[i as int].0 != chans[k + 1].0);
                        }
                    }
                    assert forall|a: int, b: int|
                        0 <= a < b < self.channels@.len() implies self.channels@[a].0
                        != self.channels@[b].0 by {
                        let a0: int = if a < i as int { a } else { a + 1 };
                        let b0: int = if b < i as int { b } else { b + 1 };
                        assert(chans[a0].0 != chans[b0].0);
                    }
                }
            },
            None => {},
        }
        proof {
            assert(self.users@ == old(self).users@);
            assert forall|a: int, b: int|
                0 <= a < b < self.users@.len() implies self.users@[a].0 != self.users@[b].0 by {
                assert(old(self).users_view()[a].0 != old(self).users_view()[b].0);
            }
        }
    }

    pub fn channels(&self) -> (r: &Vec<(u32, Channel)>)
        ensures
            r@ == self.channels_view(),
    {
        &self.channels
    }

    /// Full path of channel `id`, walking at most `fuel` parent links.
    fn channel_path(&self, id: u32, fuel: usize) -> (r: String)
        requires
            self.wf(),
        ensures
            r@ == channel_path_spec(self.channels_view(), id, fuel as nat),
        decreases fuel,
    {
        let i = match self.find_channel(id) {
            Some(i) => i,
            None => {
                return String::new();
            },
        };
        proof {
            let chans = self.channels_view();
            assert(0 <= chan_index(chans, id) < chans.len() && chans[chan_index(chans, id)].0
                == id);
        }
        let ghost ci = chan_index(self.channels_view(), id);
        let name = self.channels[i].1.name.clone();
        let parent = self.channels[i].1.parent;
        proof {
            if ci < i as int {
                assert(self.channels_view()[ci].0 != self.channels_view()[i as int].0);
            }
            if ci > i as int {
                assert(self.channels_view()[i as int].0 != self.channels_view()[ci].0);
            }
            assert(ci == i as int);
        }
        match parent {
            None => name,
            Some(p) => {
                if fuel == 0 {
                    name
                } else {
                    let prefix = self.channel_path(p, fuel - 1);
                    let r = prefix.concat("/").concat(name.as_str());
                    proof {
                        assert(r@ =~= channel_path_spec(self.channels_view(), id, fuel as nat));
                    }
                    r
                }
            },
        }
    }

    /// Every channel with its full path, in table order.
    pub fn channel_paths(&self) -> (r: Vec<(u32, String)>)
        requires
            self.wf(),
        ensures
            r@.len() == self.channels_view().len(),
            forall|i: int|
                0 <= i < r@.len() ==> (#[trigger] r@[i]).0 == self.channels_view()[i].0
                    && (r@[i].1)@ == channel_path_spec(
                    self.channels_view(),
                    self.channels_view()[i].0,
                    self.channels_view().len(),
                ),
    {
        let n = self.channels.len();
        let mut out: Vec<(u32, String)> = Vec::new();
        let mut i: usize = 0;
        while i < n
            invariant
                i <= n,
                n == self.channels_view().len(),
                self.wf(),
                out@.len() == i,
                forall|q: int|
                    0 <= q < i ==> (#[trigger] out@[q]).0 == self.channels_view()[q].0
                        && (out@[q].1)@ == channel_path_spec(
                        self.channels_view(),
                        self.channels_view()[q].0,
                        self.channels_view().len(),
                    ),
            decreases n - i,
        {
            let id = self.channels[i].0;
            let path = self.channel_path(id, n);
            out.push((id, path));
            i = i + 1;
        }
        out
    }

    /// Indices of the channels whose paths match the identifier.
    fn collect_matches(&self, needle: &Vec<char>, soft: bool) -> (r: Vec<usize>)
        requires
            self.wf(),
        ensures
            r@.len() == match_count(
                self.channels_view(),
                self.channels_view().len() as int,
                needle@,
                soft,
            ),
            forall|t: int|
                0 <= t < r@.len() ==> (#[trigger] r@[t]) < self.channels_view().len()
                    && channel_matches(self.channels_view(), r@[t] as int, needle@, soft),
    {
        let n = self.channels.len();
        let mut out: Vec<usize> = Vec::new();
        let mut i: usize = 0;
        let ghost chans = self.channels_view();
        while i < n
            invariant
                i <= n,
                n == chans.len(),
                chans == self.channels_view(),
                self.wf(),
                out@.len() == match_count(chans, i as int, needle@, soft),
                forall|t: int|
                    0 <= t < out@.len() ==> (#[trigger] out@[t]) < chans.len() && channel_matches(
                        chans,
                        out@[t] as int,
                        needle@,
                        soft,
                    ),
            decreases n - i,
        {
            let path = self.channel_path(self.channels[i].0, n);
            let path_chars = str_to_chars(path.as_str());
            let matched: bool = if soft {
                let lowered_needle = lower_chars(needle);
                let lowered_path = lower_chars(&path_chars);
                is_suffix(&lowered_needle, &lowered_path)
            } else {
                is_suffix(needle, &path_chars)
            };
            proof {
                assert(matched == channel_matches(chans, i as int, needle@, soft));
            }
            if matched {
                out.push(i);
            }
            i = i + 1;
        }
        out
    }

    /// How many channel paths end with the identifier exactly
    /// (case-sensitively).
    pub fn count_exact_matches(&self, channel_name: &str) -> (n: usize)
        requires
            self.wf(),
        ensures
            n as int == match_count(
                self.channels_view(),
                self.channels_view().len() as int,
                channel_name@,
                false,
            ),
    {
        let needle = str_to_chars(channel_name);
        self.collect_matches(&needle, false).len()
    }

    /// Resolve a channel identifier to a channel: the identifier names the
    /// channel whose full path ends with it. If no path matches exactly,
    /// matching is retried with ASCII lowercase folding on both sides (the
    /// fold is ASCII-only, so names outside ASCII only ever match exactly).
    /// One match resolves; none is invalid; several are ambiguous.
    pub fn channel_name(&self, channel_name: &str) -> (r: Result<
        (u32, &Channel),
        ChannelIdentifierError,
    >)
        requires
            self.wf(),
        ensures
            ({
                let chans = self.channels_view();
                let n = chans.len() as int;
                let hard = match_count(chans, n, channel_name@, false);
                let soft = match_count(chans, n, channel_name@, true);
                &&& hard == 1 ==> (r matches Ok(p) && exists|i: int|
                    0 <= i < n && (#[trigger] chans[i]).0 == p.0 && *p.1 == chans[i].1
                        && channel_matches(chans, i, channel_name@, false))
                &&& hard > 1 ==> r == Err::<(u32, &Channel), _>(ChannelIdentifierError::Ambiguous)
                &&& hard == 0 && soft == 1 ==> (r matches Ok(p) && exists|i: int|
                    0 <= i < n && (#[trigger] chans[i]).0 == p.0 && *p.1 == chans[i].1
                        && channel_matches(chans, i, channel_name@, true))
                &&& hard == 0 && soft == 0 ==> r == Err::<(u32, &Channel), _>(
                    ChannelIdentifierError::Invalid,
                )
                &&& hard == 0 && soft > 1 ==> r == Err::<(u32, &Channel), _>(
                    ChannelIdentifierError::Ambiguous,
                )
                &&& r is Ok ==> hard == 1 || (hard == 0 && soft == 1)
            }),
    {
        let needle = str_to_chars(channel_name);
        let hard = self.collect_matches(&needle, false);
        if hard.len() == 1 {
            let i = hard[0];
            Ok((self.channels[i].0, &self.channels[i].1))
        } else if hard.len() > 1 {
            Err(ChannelIdentifierError::Ambiguous)
        } else {
            let soft = self.collect_matches(&needle, true);
            if soft.len() == 1 {
                let i = soft[0];
                Ok((self.channels[i].0, &self.channels[i].1))
            } else if soft.len() == 0 {
                Err(ChannelIdentifierError::Invalid)
            } else {
                Err(ChannelIdentifierError::Ambiguous)
            }
        }
    }

    /// The channel our own session sits in, if we are fully joined.
    pub fn current_channel(&self) -> (r: Option<(u32, &Channel)>)
        ensures
            r matches Some(p) ==> exists|u: int, c: int|
                0 <= u < self.users_view().len() && 0 <= c < self.channels_view().len()
                    && self.session_id_spec() == Some((#[trigger] self.users_view()[u]).0)
                    && self.users_view()[u].1.channel == p.0 && (#[trigger] self.channels_view()[c]).0
                    == p.0 && *p.1 == self.channels_view()[c].1,
            r is None ==> self.session_id_spec() is None || (forall|u: int|
                0 <= u < self.users_view().len() ==> self.session_id_spec() != Some(
                    (#[trigger] self.users_view()[u]).0,
                )) || (exists|u: int|
                0 <= u < self.users_view().len() && self.session_id_spec() == Some(
                    (#[trigger] self.users_view()[u]).0,
                ) && !has_chan(self.channels_view(), self.users_view()[u].1.channel)),
    {
        let sid = match self.session_id {
            Some(s) => s,
            None => {
                return None;
            },
        };
        let mut u: usize = 0;
        while u < self.users.len()
            invariant
                u <= self.users@.len(),
                Some(sid) == self.session_id_spec(),
                forall|q: int| 0 <= q < u ==> (#[trigger] self.users@[q]).0 != sid,
            decreases self.users@.len() - u,
        {
            if self.users[u].0 == sid {
                let cid = self.users[u].1.channel;
                match self.find_channel(cid) {
                    Some(c) => {
                        proof {
                            assert((self.users_view()[u as int]).0 == sid);
                            assert((self.channels_view()[c as int]).0 == cid);
                        }
                        return Some((cid, &self.channels[c].1));
                    },
                    None => {
                        return None;
                    },
                }
            }
            u = u + 1;
        }
        None
    }

    pub fn host_mut(&mut self) -> (r: &mut Option<String>)
        ensures
            *r == old(self).host_spec(),
            final(self).host_spec() == *final(r),
            final(self).channels_view() == old(self).channels_view(),
            final(self).users_view() == old(self).users_view(),
            final(self).username_spec() == old(self).username_spec(),
            final(self).password_spec() == old(self).password_spec(),
            final(self).session_id_spec() == old(self).session_id_spec(),
            final(self).muted_spec() == old(self).muted_spec(),
            final(self).deafened_spec() == old(self).deafened_spec(),
            final(self).welcome_text_spec() == old(self).welcome_text_spec(),
    {
        &mut self.host
    }

    pub fn session_id(&self) -> (r: Option<u32>)
        ensures
            r == self.session_id_spec(),
    {
        self.session_id
    }

    pub fn session_id_mut(&mut self) -> (r: &mut Option<u32>)
        ensures
            *r == old(self).session_id_spec(),
            final(self).session_id_spec() == *final(r),
            final(self).channels_view() == old(self).channels_view(),
            final(self).users_view() == old(self).users_view(),
            final(self).username_spec() == old(self).username_spec(),
            final(self).password_spec() == old(self).password_spec(),
            final(self).host_spec() == old(self).host_spec(),
            final(self).muted_spec() == old(self).muted_spec(),
            final(self).deafened_spec() == old(self).deafened_spec(),
            final(self).welcome_text_spec() == old(self).welcome_text_spec(),
    {
        &mut self.session_id
    }

    pub fn users(&self) -> (r: &Vec<(u32, User)>)
        ensures
            r@ == self.users_view(),
    {
        &self.users
    }

    pub fn users_mut(&mut self) -> (r: &mut Vec<(u32, User)>)
        ensures
            r@ == old(self).users_view(),
            final(self).users_view() == final(r)@,
            final(self).channels_view() == old(self).channels_view(),
            final(self).username_spec() == old(self).username_spec(),
            final(self).password_spec() == old(self).password_spec(),
            final(self).session_id_spec() == old(self).session_id_spec(),
            final(self).host_spec() == old(self).host_spec(),
            final(self).muted_spec() == old(self).muted_spec(),
            final(self).deafened_spec() == old(self).deafened_spec(),
            final(self).welcome_text_spec() == old(self).welcome_text_spec(),
    {
        &mut self.users
    }

    /// Whether user `session` is present.
    pub fn has_user(&self, session: u32) -> (r: bool)
        ensures
            r == exists|i: int|
                0 <= i < self.users_view().len() && (#[trigger] self.users_view()[i]).0 == session,
    {
        let mut i: usize = 0;
        while i < self.users.len()
            invariant
                i <= self.users@.len(),
                forall|j: int| 0 <= j < i ==> (#[trigger] self.users@[j]).0 != session,
            decreases self.users@.len() - i,
        {
            if self.users[i].0 == session {
                proof {
                    assert((self.users_view()[i as int]).0 == session);
                }
                return true;
            }
            i = i + 1;
        }
        false
    }

    /// The display name of user `session`, if present.
    pub fn user_name(&self, session: u32) -> (r: Option<String>)
        ensures
            match r {
                Some(name) => exists|i: int|
                    0 <= i < self.users_view().len() && (#[trigger] self.users_view()[i]).0
                        == session && (self.users_view()[i].1.name)@ == name@,
                None => forall|i: int|
                    0 <= i < self.users_view().len() ==> (#[trigger] self.users_view()[i]).0
                        != session,
            },
    {
        let mut i: usize = 0;
        while i < self.users.len()
            invariant
                i <= self.users@.len(),
                forall|j: int| 0 <= j < i ==> (#[trigger] self.users@[j]).0 != session,
            decreases self.users@.len() - i,
        {
            if self.users[i].0 == session {
                proof {
                    assert((self.users_view()[i as int]).0 == session);
                }
                return Some(self.users[i].1.name.clone());
            }
            i = i + 1;
        }
        None
    }

    /// Insert user `session`, or replace the stored state of a known one.
    pub fn put_user(&mut self, session: u32, user: User)
        requires
            old(self).wf(),
        ensures
            final(self).wf(),
            final(self).channels_view() == old(self).channels_view(),
            final(self).session_id_spec() == old(self).session_id_spec(),
            final(self).username_spec() == old(self).username_spec(),
            final(self).host_spec() == old(self).host_spec(),
            final(self).welcome_text_spec() == old(self).welcome_text_spec(),
            exists|i: int|
                0 <= i < final(self).users_view().len() && (#[trigger] final(self).users_view()[i]).0
                    == session && final(self).users_view()[i].1 == user,
            forall|i: int|
                0 <= i < old(self).users_view().len() && old(self).users_view()[i].0 != session
                    ==> (#[trigger] final(self).users_view()[i]) == old(self).users_view()[i],
    {
        let mut i: usize = 0;
        let n = self.users.len();
        while i < n
            invariant
                i <= n,
                n == self.users@.len(),
                self == old(self),
                old(self).wf(),
                forall|j: int| 0 <= j < i ==> (#[trigger] self.users@[j]).0 != session,
            decreases n - i,
        {
            if self.users[i].0 == session {
                self.users.remove(i);
                self.users.insert(i, (session, user));
                proof {
                    assert((self.users_view()[i as int]).0 == session && self.users_view()[
                        i as int
                    ].1 == user);
                    assert forall|k: int|
                        0 <= k < self.users@.len() && k != i implies (#[trigger] self.users@[k])
                        == old(self).users_view()[k] by {
                        assert(self.users@ == old(self).users_view().remove(i as int).insert(
                            i as int,
                            self.users@[i as int],
                        ));
                    }
                    assert forall|a: int, b: int|
                        0 <= a < b < self.users@.len() implies self.users@[a].0
                        != self.users@[b].0 by {
                        assert(self.users@[a].0 == old(self).users_view()[a].0);
                        assert(self.users@[b].0 == old(self).users_view()[b].0);
                        assert(old(self).users_view()[a].0 != old(self).users_view()[b].0);
                    }
                    assert forall|a: int, b: int|
                        0 <= a < b < self.channels@.len() implies self.channels@[a].0
                        != self.channels@[b].0 by {
                        assert(old(self).channels_view()[a].0 != old(self).channels_view()[b].0);
                    }
                }
                return ;
            }
            i = i + 1;
        }
        self.users.push((session, user));
        proof {
            assert(self.users@.drop_last() =~= old(self).users_view());
            let last = self.users@.len() - 1;
            assert((self.users_view()[last]).0 == session && self.users_view()[last].1 == user);
            assert forall|a: int, b: int|
                0 <= a < b < self.users@.len() implies self.users@[a].0 != self.users@[b].0 by {
                if b < last {
                    assert(old(self).users_view()[a].0 != old(self).users_view()[b].0);
                } else {
                    assert(self.users@[a] == old(self).users_view()[a]);
                }
            }
            assert forall|a: int, b: int|
                0 <= a < b < self.channels@.len() implies self.channels@[a].0
                != self.channels@[b].0 by {
                assert(old(self).channels_view()[a].0 != old(self).channels_view()[b].0);
            }
        }
    }

    /// Remove user `session` if present; every other user is kept in order
    /// and untouched.
    pub fn remove_user(&mut self, session: u32)
        requires
            old(self).wf(),
        ensures
            final(self).wf(),
            final(self).channels_view() == old(self).channels_view(),
            final(self).session_id_spec() == old(self).session_id_spec(),
            final(self).username_spec() == old(self).username_spec(),
            final(self).host_spec() == old(self).host_spec(),
            final(self).welcome_text_spec() == old(self).welcome_text_spec(),
            forall|i: int|
                0 <= i < final(self).users_view().len() ==> (#[trigger] final(self).users_view()[i]).0
                    != session,
            !(exists|i: int|
                0 <= i < old(self).users_view().len() && (#[trigger] old(self).users_view()[i]).0
                    == session) ==> final(self).users_view() == old(self).users_view(),
            (exists|i: int|
                0 <= i < old(self).users_view().len() && (#[trigger] old(self).users_view()[i]).0
                    == session) ==> final(self).users_view() == old(self).users_view().remove(
                user_idx(old(self).users_view(), session),
            ),
    {
        let mut i: usize = 0;
        let n = self.users.len();
        while i < n
            invariant
                i <= n,
                n == self.users@.len(),
                self == old(self),
                old(self).wf(),
                forall|j: int| 0 <= j < i ==> (#[trigger] self.users@[j]).0 != session,
            decreases n - i,
        {
            if self.users[i].0 == session {
                self.users.remove(i);
                proof {
                    let olds = old(self).users_view();
                    assert forall|k: int|
                        0 <= k < self.users@.len() implies (#[trigger] self.users@[k]) == (if k
                            < i as int {
                            olds[k]
                        } else {
                            olds[k + 1]
                        }) by {}
                    assert forall|k: int|
                        0 <= k < self.users@.len() implies self.users@[k].0 != session by {
                        if k >= i as int {
                            assert(olds[i as int].0 != olds[k + 1].0);
                        }
                    }
                    assert forall|a: int, b: int|
                        0 <= a < b < self.users@.len() implies self.users@[a].0
                        != self.users@[b].0 by {
                        let a0: int = if a < i as int { a } else { a + 1 };
                        let b0: int = if b < i as int { b } else { b + 1 };
                        assert(olds[a0].0 != olds[b0].0);
                    }
                    assert forall|a: int, b: int|
                        0 <= a < b < self.channels@.len() implies self.channels@[a].0
                        != self.channels@[b].0 by {
                        assert(old(self).channels_view()[a].0 != old(self).channels_view()[b].0);
                    }
                }
                return ;
            }
            i = i + 1;
        }
    }

    /// Set our own session id.
    pub fn set_session_id(&mut self, session: u32)
        requires
            old(self).wf(),
        ensures
            final(self).wf(),
            final(self).session_id_spec() == Some(session),
            final(self).channels_view() == old(self).channels_view(),
            final(self).users_view() == old(self).users_view(),
            final(self).username_spec() == old(self).username_spec(),
            final(self).host_spec() == old(self).host_spec(),
    {
        self.session_id = Some(session);
        proof {
            assert forall|a: int, b: int|
                0 <= a < b < self.channels@.len() implies self.channels@[a].0
                != self.channels@[b].0 by {
                assert(old(self).channels_view()[a].0 != old(self).channels_view()[b].0);
            }
            assert forall|a: int, b: int|
                0 <= a < b < self.users@.len() implies self.users@[a].0 != self.users@[b].0 by {
                assert(old(self).users_view()[a].0 != old(self).users_view()[b].0);
            }
        }
    }

    /// The channel user `session` sits in, if the user is known.
    pub fn user_channel(&self, session: u32) -> (r: Option<u32>)
        ensures
            match r {
                Some(c) => exists|i: int|
                    0 <= i < self.users_view().len() && (#[trigger] self.users_view()[i]).0
                        == session && self.users_view()[i].1.channel == c,
                None => forall|i: int|
                    0 <= i < self.users_view().len() ==> (#[trigger] self.users_view()[i]).0
                        != session,
            },
    {
        let mut i: usize = 0;
        while i < self.users.len()
            invariant
                i <= self.users@.len(),
                forall|j: int| 0 <= j < i ==> (#[trigger] self.users@[j]).0 != session,
            decreases self.users@.len() - i,
        {
            if self.users[i].0 == session {
                proof {
                    assert((self.users_view()[i as int]).0 == session);
                }
                return Some(self.users[i].1.channel);
            }
            i = i + 1;
        }
        None
    }

    /// The display name of channel `id`, if present.
    pub fn channel_display_name(&self, id: u32) -> (r: Option<String>)
        ensures
            match r {
                Some(name) => has_chan(self.channels_view(), id),
                None => !has_chan(self.channels_view(), id),
            },
    {
        match self.find_channel(id) {
            Some(i) => {
                proof {
                    assert((self.channels_view()[i as int]).0 == id);
                }
                Some(self.channels[i].1.name.clone())
            },
            None => None,
        }
    }

    pub fn username(&self) -> (r: Option<&str>)
        ensures
            match r {
                Some(s) => self.username_spec() matches Some(u) && u@ == s@,
                None => self.username_spec() is None,
            },
    {
        match &self.username {
            Some(s) => Some(s.as_str()),
            None => None,
        }
    }

    pub fn username_mut(&mut self) -> (r: &mut Option<String>)
        ensures
            *r == old(self).username_spec(),
            final(self).username_spec() == *final(r),
            final(self).channels_view() == old(self).channels_view(),
            final(self).users_view() == old(self).users_view(),
            final(self).password_spec() == old(self).password_spec(),
            final(self).session_id_spec() == old(self).session_id_spec(),
            final(self).host_spec() == old(self).host_spec(),
            final(self).muted_spec() == old(self).muted_spec(),
            final(self).deafened_spec() == old(self).deafened_spec(),
            final(self).welcome_text_spec() == old(self).welcome_text_spec(),
    {
        &mut self.username
    }

    pub fn password(&self) -> (r: Option<&str>)
        ensures
            match r {
                Some(s) => self.password_spec() matches Some(p) && p@ == s@,
                None => self.password_spec() is None,
            },
    {
        match &self.password {
            Some(s) => Some(s.as_str()),
            None => None,
        }
    }

    pub fn password_mut(&mut self) -> (r: &mut Option<String>)
        ensures
            *r == old(self).password_spec(),
            final(self).password_spec() == *final(r),
            final(self).channels_view() == old(self).channels_view(),
            final(self).users_view() == old(self).users_view(),
            final(self).username_spec() == old(self).username_spec(),
            final(self).session_id_spec() == old(self).session_id_spec(),
            final(self).host_spec() == old(self).host_spec(),
            final(self).muted_spec() == old(self).muted_spec(),
            final(self).deafened_spec() == old(self).deafened_spec(),
            final(self).welcome_text_spec() == old(self).welcome_text_spec(),
    {
        &mut self.password
    }

    /// The stored host address, as an owned copy.
    pub fn host(&self) -> (r: Option<String>)
        ensures
            r == self.host_spec(),
    {
        match &self.host {
            Some(h) => Some(h.clone()),
            None => None,
        }
    }

    /// The stored welcome text, as an owned copy.
    pub fn welcome_text_clone(&self) -> (r: Option<String>)
        ensures
            r == self.welcome_text_spec(),
    {
        match &self.welcome_text {
            Some(t) => Some(t.clone()),
            None => None,
        }
    }

    pub fn muted(&self) -> (r: bool)
        ensures
            r == self.muted_spec(),
    {
        self.muted
    }

    pub fn deafened(&self) -> (r: bool)
        ensures
            r == self.deafened_spec(),
    {
        self.deafened
    }

    pub fn set_muted(&mut self, value: bool)
        ensures
            final(self).muted_spec() == value,
            final(self).deafened_spec() == old(self).deafened_spec(),
            final(self).channels_view() == old(self).channels_view(),
            final(self).users_view() == old(self).users_view(),
            final(self).session_id_spec() == old(self).session_id_spec(),
            final(self).username_spec() == old(self).username_spec(),
            final(self).password_spec() == old(self).password_spec(),
            final(self).host_spec() == old(self).host_spec(),
            final(self).welcome_text_spec() == old(self).welcome_text_spec(),
            old(self).wf() ==> final(self).wf(),
    {
        self.muted = value;
        proof {
            if old(self).wf() {
                assert forall|a: int, b: int|
                    0 <= a < b < self.channels@.len() implies self.channels@[a].0
                    != self.channels@[b].0 by {
                    assert(old(self).channels_view()[a].0 != old(self).channels_view()[b].0);
                }
                assert forall|a: int, b: int|
                    0 <= a < b < self.users@.len() implies self.users@[a].0 != self.users@[b].0 by {
                    assert(old(self).users_view()[a].0 != old(self).users_view()[b].0);
                }
            }
        }
    }

    pub fn set_deafened(&mut self, value: bool)
        ensures
            final(self).deafened_spec() == value,
            final(self).muted_spec() == old(self).muted_spec(),
            final(self).channels_view() == old(self).channels_view(),
            final(self).users_view() == old(self).users_view(),
            final(self).session_id_spec() == old(self).session_id_spec(),
            final(self).username_spec() == old(self).username_spec(),
            final(self).password_spec() == old(self).password_spec(),
            final(self).host_spec() == old(self).host_spec(),
            final(self).welcome_text_spec() == old(self).welcome_text_spec(),
            old(self).wf() ==> final(self).wf(),
    {
        self.deafened = value;
        proof {
            if old(self).wf() {
                assert forall|a: int, b: int|
                    0 <= a < b < self.channels@.len() implies self.channels@[a].0
                    != self.channels@[b].0 by {
                    assert(old(self).channels_view()[a].0 != old(self).channels_view()[b].0);
                }
                assert forall|a: int, b: int|
                    0 <= a < b < self.users@.len() implies self.users@[a].0 != self.users@[b].0 by {
                    assert(old(self).users_view()[a].0 != old(self).users_view()[b].0);
                }
            }
        }
    }
}

/// Well-formedness depends on the channel and user tables alone, so any
/// mutation that leaves both tables unchanged preserves it.
pub proof fn lemma_wf_from_tables(a: &ConnectedServer, b: &ConnectedServer)
    requires
        a.wf(),
        b.channels_view() == a.channels_view(),
        b.users_view() == a.users_view(),
    ensures
        b.wf(),
{
    assert forall|i: int, j: int|
        0 <= i < j < b.channels_view().len() implies b.channels_view()[i].0
        != b.channels_view()[j].0 by {
        assert(a.channels_view()[i].0 != a.channels_view()[j].0);
    }
    assert forall|i: int, j: int|
        0 <= i < j < b.users_view().len() implies b.users_view()[i].0 != b.users_view()[j].0 by {
        assert(a.users_view()[i].0 != a.users_view()[j].0);
    }
}

} // verus!
