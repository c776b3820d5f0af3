//! Sessions: which one a client gets, how its shell is started and when it
//! ends.

use crate::text::{push_text, same_text};
use vstd::prelude::*;

verus! {

/// `char::is_whitespace`: whether the character has the Unicode property
/// White_Space.
pub assume_specification[ char::is_whitespace ](c: char) -> (white: bool)
    ensures
        white == is_white_space(c),
;

/// The characters with the Unicode property White_Space.
pub open spec fn is_white_space(c: char) -> bool {
    let p = c as int;
    ||| 0x09 <= p <= 0x0d
    ||| p == 0x20 || p == 0x85 || p == 0xa0 || p == 0x1680
    ||| 0x2000 <= p <= 0x200a
    ||| p == 0x2028 || p == 0x2029 || p == 0x202f || p == 0x205f || p == 0x3000
}

/// Whether nothing but white space is left of `text`.
pub open spec fn is_blank(text: Seq<char>) -> bool {
    forall|i: int| 0 <= i < text.len() ==> is_white_space(#[trigger] text[i])
}

/// Whether `text` holds nothing but white space.
fn blank(text: &str) -> (result: bool)
    ensures
        result == is_blank(text@),
{
    let n: usize = text.unicode_len();
    let mut i: usize = 0;
    while i < n
        invariant
            i <= n,
            n == text@.len(),
            forall|k: int| 0 <= k < i ==> is_white_space(#[trigger] text@[k]),
        decreases n - i,
    {
        if !text.get_char(i).is_whitespace() {
            return false;
        }
        i += 1;
    }
    true
}

/// The session that a client asks for: the one it names, or the default one
/// when it names none or the name is blank.
pub fn session_id(asked: Option<String>) -> (id: String)
    ensures
        id@ == match asked {
            Some(name) => if is_blank(name@) {
                "default"@
            } else {
                name@
            },
            None => "default"@,
        },
{
    match asked {
        Some(name) => if blank(name.as_str()) {
            "default".to_owned()
        } else {
            name
        },
        None => "default".to_owned(),
    }
}

/// Size of a PTY.
#[derive(Clone, Copy, PartialEq, Eq, Structural, Debug)]
pub struct PtySize {
    pub rows: u16,
    pub cols: u16,
    pub pixel_width: u16,
    pub pixel_height: u16,
}

/// The size of a PTY from what the client reports.
pub fn pty_size(cols: u16, rows: u16, pixel_width: u16, pixel_height: u16) -> (size: PtySize)
    ensures
        size == (PtySize { rows, cols, pixel_width, pixel_height }),
{
    PtySize { rows, cols, pixel_width, pixel_height }
}

/// How the shell of a new session is started.
#[derive(Debug)]
pub struct ShellLaunch {
    /// The shell.
    pub program: String,
    /// Value of the variable `TERM`.
    pub term: String,
    /// Value of the variable `COLORTERM`.
    pub colorterm: String,
    /// The directory to start in, where one is asked for.
    pub dir: Option<String>,
    /// The size of the PTY.
    pub size: PtySize,
}

/// How to start the shell of a new session, given the value of `SHELL` and
/// the directory that the client asks for.
pub fn shell_launch(shell: Option<String>, dir: Option<String>) -> (launch: ShellLaunch)
    ensures
        launch.program@ == match shell {
            Some(s) => s@,
            None => "/bin/sh"@,
        },
        launch.term@ == "xterm-256color"@,
        launch.colorterm@ == "truecolor"@,
        launch.dir == dir,
        launch.size == (PtySize { rows: 24, cols: 80, pixel_width: 0, pixel_height: 0 }),
{
    ShellLaunch {
        program: match shell {
            Some(s) => s,
            None => "/bin/sh".to_owned(),
        },
        term: "xterm-256color".to_owned(),
        colorterm: "truecolor".to_owned(),
        dir,
        size: pty_size(80, 24, 0, 0),
    }
}

/// The directory with the built client: the one that is configured, else the
/// one in the workspace, else a default.
pub fn pkg_dir(configured: Option<String>, workspace: Option<String>, default: &str) -> (dir: String)
    ensures
        dir@ == match (configured, workspace) {
            (Some(d), _) => d@,
            (None, Some(d)) => d@,
            (None, None) => default@,
        },
{
    match configured {
        Some(d) => d,
        None => match workspace {
            Some(d) => d,
            None => default.to_owned(),
        },
    }
}

/// The port to listen on, given the value of `PORT`.
pub fn listen_port(configured: Option<String>) -> (port: String)
    ensures
        port@ == match configured {
            Some(p) => p@,
            None => "3000"@,
        },
{
    match configured {
        Some(p) => p,
        None => "3000".to_owned(),
    }
}

/// The address to listen on: all interfaces, at `port`.
pub fn listen_addr(port: &str) -> (addr: String)
    ensures
        addr@ == "0.0.0.0:"@ + port@,
{
    let mut addr: String = "0.0.0.0:".to_owned();
    push_text(&mut addr, port);
    addr
}

/// Appends input to what is to be written to the PTY, byte for byte.
pub fn pty_write(queue: &mut Vec<u8>, bytes: &[u8])
    ensures
        final(queue)@ == old(queue)@ + bytes@,
{
    queue.extend_from_slice(bytes);
    assert(queue@ =~= old(queue)@ + bytes@);
}

/// Counts one connection less. Returns whether it was the last one, so that
/// the session can be cleaned up. The count wraps around below zero.
pub fn drop_connection(connections: &mut usize) -> (last: bool)
    ensures
        last == (*old(connections) == 1),
        *old(connections) > 0 ==> *final(connections) == *old(connections) - 1,
        *old(connections) == 0 ==> *final(connections) == usize::MAX,
{
    let before: usize = *connections;
    *connections = before.wrapping_sub(1);
    before == 1
}

/// Counts one connection more; the count wraps around.
pub fn add_connection(connections: &mut usize)
    ensures
        *old(connections) < usize::MAX ==> *final(connections) == *old(connections) + 1,
        *old(connections) == usize::MAX ==> *final(connections) == 0,
{
    *connections = (*connections).wrapping_add(1);
}

/// Whether the session ends when one of its `connections` clients leaves.
pub open spec fn session_ends(ends_with_last: bool, connections: usize) -> bool {
    ends_with_last && connections == 1
}

/// Releases a client. Returns whether its session is to be removed: never
/// for a server whose sessions outlive their clients, so that a page that is
/// loaded again finds its session, and else when it was the last client.
pub fn release_client(ends_with_last: bool, connections: &mut usize) -> (remove: bool)
    ensures
        remove == session_ends(ends_with_last, *old(connections)),
        *old(connections) > 0 ==> *final(connections) == *old(connections) - 1,
        *old(connections) == 0 ==> *final(connections) == usize::MAX,
{
    let last: bool = drop_connection(connections);
    ends_with_last && last
}

/// A session in the table: its name and its number.
#[derive(Debug)]
pub struct Entry {
    pub id: String,
    pub number: u64,
}

/// The running sessions. Every session has a number of its own, which is
/// never used again.
#[derive(Debug)]
pub struct SessionTable {
    pub entries: Vec<Entry>,
    pub next: u64,
}

/// What a client gets: a session that is running, or a new one whose shell
/// has to be started.
#[derive(Clone, Copy, PartialEq, Eq, Structural, Debug)]
pub enum Opened {
    Existing(u64),
    Fresh(u64),
}

impl Opened {
    /// The number of the session.
    pub open spec fn number(self) -> u64 {
        match self {
            Opened::Existing(n) => n,
            Opened::Fresh(n) => n,
        }
    }
}

/// Whether asking `before` for the session `id` gives `opened` and leaves
/// `after`: a running session as it is, or a new one beside all others.
pub open spec fn opens(
    before: SessionTable,
    id: Seq<char>,
    opened: Opened,
    after: SessionTable,
) -> bool {
    match opened {
        Opened::Existing(n) => after == before && before.runs(id, n),
        Opened::Fresh(n) => {
            &&& !before.running(id)
            &&& n == before.next
            &&& after.next == n + 1
            &&& forall|name: Seq<char>, number: u64| #[trigger]
                after.runs(name, number) <==> before.runs(name, number) || (name == id && number
                    == n)
        },
    }
}

impl SessionTable {
    /// Whether the table is well-formed: no name and no number occurs twice,
    /// and no number is one that is still to be given.
    pub open spec fn wf(self) -> bool {
        &&& forall|i: int, j: int|
            0 <= i < j < self.entries@.len() ==> (#[trigger] self.entries@[i]).id@ != (
            #[trigger] self.entries@[j]).id@ && self.entries@[i].number != self.entries@[j].number
        &&& forall|i: int|
            0 <= i < self.entries@.len() ==> (#[trigger] self.entries@[i]).number < self.next
    }

    /// Whether the session `id` is running under the given number.
    pub open spec fn runs(self, id: Seq<char>, number: u64) -> bool {
        exists|i: int|
            0 <= i < self.entries@.len() && (#[trigger] self.entries@[i]).id@ == id
                && self.entries@[i].number == number
    }

    /// Whether the session `id` is running.
    pub open spec fn running(self, id: Seq<char>) -> bool {
        exists|i: int| 0 <= i < self.entries@.len() && (#[trigger] self.entries@[i]).id@ == id
    }

    /// A table without sessions.
    pub fn new() -> (table: SessionTable)
        ensures
            table.wf(),
            forall|id: Seq<char>| !#[trigger] table.running(id),
            table.next == 0,
    {
        SessionTable { entries: Vec::new(), next: 0 }
    }

    /// The place of a session in the table.
    fn find(&self, id: &str) -> (place: Option<usize>)
        ensures
            match place {
                Some(i) => i < self.entries@.len() && self.entries@[i as int].id@ == id@,
                None => !self.running(id@),
            },
    {
        let mut i: usize = 0;
        while i < self.entries.len()
            invariant
                i <= self.entries@.len(),
                forall|k: int| 0 <= k < i ==> (#[trigger] self.entries@[k]).id@ != id@,
            decreases self.entries.len() - i,
        {
            if same_text(self.entries[i].id.as_str(), id) {
                return Some(i);
            }
            i += 1;
        }
        None
    }

    /// The number of the session `id`, if it is running.
    pub fn lookup(&self, id: &str) -> (number: Option<u64>)
        requires
            self.wf(),
        ensures
            match number {
                Some(n) => self.runs(id@, n),
                None => !self.running(id@),
            },
    {
        match self.find(id) {
            Some(i) => Some(self.entries[i].number),
            None => None,
        }
    }

    /// Opens the session `id`: the running one, or a new one.
    pub fn open(&mut self, id: &str) -> (opened: Opened)
        requires
            old(self).wf(),
            old(self).next < u64::MAX,
        ensures
            final(self).wf(),
            opens(*old(self), id@, opened, *final(self)),
    {
        if let Some(i) = self.find(id) {
            return Opened::Existing(self.entries[i].number);
        }
        let number: u64 = self.next;
        let ghost before = *self;
        self.entries.push(Entry { id: id.to_owned(), number });
        self.next = number + 1;
        assert(self.entries@.drop_last() =~= before.entries@);
        assert forall|name: Seq<char>, k: u64| #[trigger]
            self.runs(name, k) <==> before.runs(name, k) || (name == id@ && k == number) by {
            if before.runs(name, k) {
                let i = choose|i: int|
                    0 <= i < before.entries@.len() && (#[trigger] before.entries@[i]).id@ == name
                        && before.entries@[i].number == k;
                assert(self.entries@[i].id@ == name);
            }
            if name == id@ && k == number {
                assert(self.entries@[before.entries@.len() as int].id@ == name);
            }
            if self.runs(name, k) {
                let i = choose|i: int|
                    0 <= i < self.entries@.len() && (#[trigger] self.entries@[i]).id@ == name
                        && self.entries@[i].number == k;
                if i < before.entries@.len() {
                    assert(before.entries@[i].id@ == name);
                }
            }
        }
        Opened::Fresh(number)
    }

    /// Removes the session `id` if it is still the one with the given number;
    /// a newer session of the same name stays.
    pub fn close(&mut self, id: &str, number: u64) -> (removed: bool)
        requires
            old(self).wf(),
        ensures
            final(self).wf(),
            removed == old(self).runs(id@, number),
            final(self).next == old(self).next,
            !removed ==> *final(self) == *old(self),
            forall|name: Seq<char>, k: u64| #[trigger]
                final(self).runs(name, k) <==> old(self).runs(name, k) && !(name == id@ && k
                    == number),
    {
        let ghost before = *self;
        match self.find(id) {
            Some(i) => {
                if self.entries[i].number != number {
                    assert(!before.runs(id@, number));
                    return false;
                }
                self.entries.remove(i);
                assert(self.entries@ =~= before.entries@.remove(i as int));
                assert forall|name: Seq<char>, k: u64| #[trigger]
                    self.runs(name, k) <==> before.runs(name, k) && !(name == id@ && k
                        == number) by {
                    if before.runs(name, k) && !(name == id@ && k == number) {
                        let j = choose|j: int|
                            0 <= j < before.entries@.len() && (#[trigger] before.entries@[j]).id@
                                == name && before.entries@[j].number == k;
                        assert(j != i);
                        let at = if j < i {
                            j
                        } else {
                            j - 1
                        };
                        assert(self.entries@[at] == before.entries@[j]);
                    }
                    if self.runs(name, k) {
                        let j = choose|j: int|
                            0 <= j < self.entries@.len() && (#[trigger] self.entries@[j]).id@ == name
                                && self.entries@[j].number == k;
                        let at = if j < i {
                            j
                        } else {
                            j + 1
                        };
                        assert(before.entries@[at] == self.entries@[j]);
                        assert(before.entries@[i as int].id@ == id@);
                    }
                }
                assert(before.runs(id@, number));
                true
            },
            None => {
                assert(!before.runs(id@, number));
                false
            },
        }
    }
}

/// A name stands for at most one running session, and a number for at most
/// one as well.
pub proof fn lemma_sessions_are_not_mixed_up(table: SessionTable, a: Seq<char>, m: u64, b: Seq<char>, n: u64)
    requires
        table.wf(),
        table.runs(a, m),
        table.runs(b, n),
    ensures
        a == b <==> m == n,
{
    let i = choose|i: int|
        0 <= i < table.entries@.len() && (#[trigger] table.entries@[i]).id@ == a
            && table.entries@[i].number == m;
    let j = choose|j: int|
        0 <= j < table.entries@.len() && (#[trigger] table.entries@[j]).id@ == b
            && table.entries@[j].number == n;
    if i < j {
        assert(table.entries@[i].id@ != table.entries@[j].id@);
    } else if j < i {
        assert(table.entries@[j].id@ != table.entries@[i].id@);
    }
}

/// A client that asks for a session gets one that then runs under the name,
/// and all other sessions stay. Whoever asks for the name again, as long as
/// the session has not been closed, gets the same session, and no shell is
/// started for it.
pub proof fn lemma_sessions_are_found_again(
    before: SessionTable,
    id: Seq<char>,
    first: Opened,
    after: SessionTable,
    later: SessionTable,
    second: Opened,
    last: SessionTable,
)
    requires
        opens(before, id, first, after),
        later.wf(),
        later.runs(id, first.number()),
        opens(later, id, second, last),
    ensures
        after.runs(id, first.number()),
        forall|name: Seq<char>, number: u64|
            name != id ==> (#[trigger] after.runs(name, number) <==> before.runs(name, number)),
        second == Opened::Existing(first.number()),
        last == later,
{
    let i = choose|i: int|
        0 <= i < later.entries@.len() && (#[trigger] later.entries@[i]).id@ == id
            && later.entries@[i].number == first.number();
    assert(later.entries@[i].id@ == id);
    assert(later.running(id));
    lemma_sessions_are_not_mixed_up(later, id, first.number(), id, second.number());
}

/// A session that ends with its last client ends exactly when no client is
/// left, and no other session ever ends by a client that leaves.
pub proof fn lemma_sessions_end_when_no_client_is_left(ends_with_last: bool, connections: usize)
    requires
        connections > 0,
    ensures
        session_ends(ends_with_last, connections) <==> ends_with_last && connections - 1 == 0,
        !session_ends(false, connections),
{
}

/// A name with a character that is no white space is not blank, whatever
/// stands around that character.
pub proof fn lemma_names_with_a_character_are_kept(before: Seq<char>, c: char, after: Seq<char>)
    requires
        '!' <= c <= '~',
    ensures
        !is_blank(before + seq![c] + after),
{
    let name = before + seq![c] + after;
    assert(name[before.len() as int] == c);
}

/// Blank names stay blank when they are put together, and the empty name is
/// blank.
pub proof fn lemma_blank_names_have_no_character(a: Seq<char>, b: Seq<char>)
    ensures
        is_blank(a + b) <==> is_blank(a) && is_blank(b),
        is_blank(Seq::<char>::empty()),
        is_blank(seq![' ']),
{
    if is_blank(a + b) {
        assert forall|i: int| 0 <= i < a.len() implies is_white_space(#[trigger] a[i]) by {
            assert((a + b)[i] == a[i]);
        }
        assert forall|i: int| 0 <= i < b.len() implies is_white_space(#[trigger] b[i]) by {
            assert((a + b)[a.len() + i] == b[i]);
        }
    }
}

} // verus!
