use vstd::prelude::*;
use crate::models::{Member, MemberView};
use crate::table::Table;
use crate::text::{chars_of, string_of};

verus! {

/// The lines of `s` read so far: the complete ones, and the one being read.
pub open spec fn scan_lines(s: Seq<char>) -> (Seq<Seq<char>>, Seq<char>)
    decreases s.len(),
{
    if s.len() == 0 {
        (Seq::empty(), Seq::empty())
    } else {
        let (done, cur) = scan_lines(s.drop_last());
        if s.last() == '\n' {
            (done.push(cur), Seq::empty())
        } else {
            (done, cur.push(s.last()))
        }
    }
}

/// The lines of `s`, split at each line feed.
pub open spec fn lines_of(s: Seq<char>) -> Seq<Seq<char>> {
    scan_lines(s).0.push(scan_lines(s).1)
}

/// `l` without one trailing carriage return.
pub open spec fn strip_cr(l: Seq<char>) -> Seq<char> {
    if l.len() > 0 && l.last() == '\r' {
        l.drop_last()
    } else {
        l
    }
}

/// `p` is the one position of a semicolon in `l`.
pub open spec fn sole_separator(l: Seq<char>, p: int) -> bool {
    &&& 0 <= p < l.len()
    &&& l[p] == ';'
    &&& forall|q: int| 0 <= q < l.len() && q != p ==> l[q] != ';'
}

/// The member that a line of the feed declares: `uid;secret`, with exactly
/// one semicolon; any other line declares none.
pub open spec fn member_of_line(line: Seq<char>) -> Option<MemberView> {
    let l = strip_cr(line);
    if exists|p: int| sole_separator(l, p) {
        let p = choose|p: int| sole_separator(l, p);
        Some(MemberView { uid: l.take(p), pwd: l.skip(p + 1) })
    } else {
        None
    }
}

/// The members that `lines` declare, in order.
pub open spec fn members_of_lines(lines: Seq<Seq<char>>) -> Seq<MemberView>
    decreases lines.len(),
{
    if lines.len() == 0 {
        Seq::empty()
    } else {
        let rest = members_of_lines(lines.drop_last());
        match member_of_line(lines.last()) {
            Some(m) => rest.push(m),
            None => rest,
        }
    }
}

/// The members that a feed declares, one per line.
pub open spec fn members_of_feed(feed: Seq<char>) -> Seq<MemberView> {
    members_of_lines(lines_of(feed))
}

/// The member that `line[lo..hi]` declares, if any.
fn parse_member_line(line: &Vec<char>, lo: usize, hi: usize) -> (r: Option<Member>)
    requires
        lo <= hi <= line@.len(),
    ensures
        r is Some <==> member_of_line(line@.subrange(lo as int, hi as int)) is Some,
        r matches Some(m) ==> Some(m@) == member_of_line(line@.subrange(lo as int, hi as int)),
{
    let ghost whole = line@.subrange(lo as int, hi as int);
    let end = if hi > lo && line[hi - 1] == '\r' {
        hi - 1
    } else {
        hi
    };
    let ghost l = line@.subrange(lo as int, end as int);
    assert(l == strip_cr(whole));
    let mut count: usize = 0;
    let mut first: usize = 0;
    let mut i: usize = lo;
    while i < end
        invariant
            lo <= i <= end <= hi <= line@.len(),
            l == line@.subrange(lo as int, end as int),
            count <= i - lo,
            count == 0 ==> forall|q: int| lo <= q < i ==> line@[q] != ';',
            count >= 1 ==> lo <= first < i && line@[first as int] == ';',
            count == 1 ==> forall|q: int| lo <= q < i && q != first ==> line@[q] != ';',
            count >= 2 ==> exists|q: int| lo <= q < i && q != first && line@[q] == ';',
        decreases end - i,
    {
        if line[i] == ';' {
            if count == 0 {
                first = i;
            }
            count = count + 1;
        }
        i = i + 1;
    }
    if count == 1 {
        let p = first - lo;
        proof {
            assert(sole_separator(l, p as int));
            assert forall|p2: int| sole_separator(l, p2) implies p2 == p by {
                if p2 != p {
                    assert(l[p2] == line@[lo + p2]);
                }
            }
        }
        let uid = string_of(line, lo, first);
        let pwd = string_of(line, first + 1, end);
        proof {
            assert(uid@ =~= l.take(p as int));
            assert(pwd@ =~= l.skip(p + 1));
        }
        Some(Member::new(uid, pwd))
    } else {
        proof {
            assert forall|p2: int| !sole_separator(l, p2) by {
                if sole_separator(l, p2) {
                    if count == 0 {
                        assert(line@[lo + p2] == ';');
                    } else {
                        let q = choose|q: int| lo <= q < i && q != first && line@[q] == ';';
                        assert(l[first - lo] == ';');
                        assert(l[q - lo] == ';');
                    }
                }
            }
        }
        None
    }
}

/// The members that `feed` declares: one `uid;secret` per line, lines split
/// at line feeds, a trailing carriage return ignored, and any line without
/// exactly one semicolon skipped.
pub fn parse_members(feed: &str) -> (r: Vec<Member>)
    ensures
        r@.map_values(|m: Member| m@) == members_of_feed(feed@),
{
    let chars = chars_of(feed);
    let mut out: Vec<Member> = Vec::new();
    let mut start: usize = 0;
    let mut i: usize = 0;
    while i < chars.len()
        invariant
            chars@ == feed@,
            start <= i <= chars@.len(),
            scan_lines(chars@.take(i as int)).1 == chars@.subrange(start as int, i as int),
            out@.map_values(|m: Member| m@) == members_of_lines(
                scan_lines(chars@.take(i as int)).0,
            ),
        decreases chars@.len() - i,
    {
        proof {
            assert(chars@.take(i + 1).drop_last() =~= chars@.take(i as int));
        }
        if chars[i] == '\n' {
            let ghost done = scan_lines(chars@.take(i as int)).0;
            let ghost cur = scan_lines(chars@.take(i as int)).1;
            let m = parse_member_line(&chars, start, i);
            proof {
                assert(done.push(cur).drop_last() =~= done);
            }
            match m {
                Some(m) => {
                    out.push(m);
                },
                None => {},
            }
            proof {
                assert(out@.map_values(|m: Member| m@) =~= members_of_lines(done.push(cur)));
            }
            start = i + 1;
            proof {
                assert(chars@.subrange(start as int, i + 1) =~= Seq::<char>::empty());
            }
        } else {
            proof {
                assert(chars@.subrange(start as int, i + 1) =~= chars@.subrange(
                    start as int,
                    i as int,
                ).push(chars@[i as int]));
            }
        }
        i = i + 1;
    }
    let ghost done = scan_lines(chars@.take(i as int)).0;
    let ghost cur = scan_lines(chars@.take(i as int)).1;
    proof {
        assert(chars@.take(i as int) =~= feed@);
        assert(done.push(cur).drop_last() =~= done);
    }
    match parse_member_line(&chars, start, i) {
        Some(m) => {
            out.push(m);
        },
        None => {},
    }
    proof {
        assert(out@.map_values(|m: Member| m@) =~= members_of_lines(done.push(cur)));
    }
    out
}

/// Holds the members permitted to authenticate, each under its uid.
pub struct MemberManager {
    members: Table<Member>,
}

impl View for MemberManager {
    type V = Map<Seq<char>, MemberView>;

    closed spec fn view(&self) -> Map<Seq<char>, MemberView> {
        self.members@
    }
}

impl MemberManager {
    /// The manager is well formed.
    pub closed spec fn wf(&self) -> bool {
        &&& self.members.wf()
        &&& forall|k: Seq<char>| #[trigger] self@.contains_key(k) ==> self@[k].uid == k
    }

    /// A manager with no members.
    pub fn new() -> (r: MemberManager)
        ensures
            r.wf(),
            r@.is_empty(),
    {
        MemberManager { members: Table::new() }
    }

    /// The member with `uid`, if any.
    pub fn get_member(&self, uid: &String) -> (r: Option<Member>)
        requires
            self.wf(),
        ensures
            r is Some <==> self@.contains_key(uid@),
            r matches Some(m) ==> m@ == self@[uid@],
    {
        match self.members.get(uid) {
            Some(m) => Some(m.duplicate()),
            None => None,
        }
    }

    /// Stores `member` under its uid, replacing any member there.
    pub fn set_member(&mut self, member: Member)
        requires
            old(self).wf(),
        ensures
            final(self).wf(),
            final(self)@ == old(self)@.insert(member@.uid, member@),
    {
        let uid = member.uid.clone();
        let ghost before = self@;
        self.members.insert(uid, member);
        proof {
            assert forall|k: Seq<char>| #[trigger] self@.contains_key(k) implies self@[k].uid == k by {
                if k != member@.uid {
                    assert(before.contains_key(k));
                }
            }
        }
    }

    /// Stores each of `members` in turn; a later one replaces an earlier one
    /// with the same uid.
    pub fn set_members(&mut self, members: &Vec<Member>)
        requires
            old(self).wf(),
        ensures
            final(self).wf(),
            forall|k: Seq<char>| #[trigger]
                final(self)@.contains_key(k) <==> old(self)@.contains_key(k) || exists|i: int|
                    0 <= i < members@.len() && members@[i]@.uid == k,
            forall|i: int|
                0 <= i < members@.len() && (forall|j: int|
                    i < j < members@.len() ==> members@[j]@.uid != members@[i]@.uid)
                    ==> final(self)@[#[trigger] members@[i]@.uid] == members@[i]@,
    {
        let ghost before = self@;
        let mut n: usize = 0;
        while n < members.len()
            invariant
                self.wf(),
                n <= members@.len(),
                forall|k: Seq<char>| #[trigger]
                    self@.contains_key(k) <==> before.contains_key(k) || exists|i: int|
                        0 <= i < n && members@[i]@.uid == k,
                forall|i: int|
                    0 <= i < n && (forall|j: int|
                        i < j < n ==> members@[j]@.uid != members@[i]@.uid)
                        ==> self@[#[trigger] members@[i]@.uid] == members@[i]@,
            decreases members@.len() - n,
        {
            let m = members[n].duplicate();
            self.set_member(m);
            proof {
                assert forall|k: Seq<char>| #[trigger] self@.contains_key(k) <==> before.contains_key(
                    k,
                ) || exists|i: int| 0 <= i < n + 1 && members@[i]@.uid == k by {
                    if k == members@[n as int]@.uid {
                        assert(members@[n as int]@.uid == k);
                    } else if exists|i: int| 0 <= i < n + 1 && members@[i]@.uid == k {
                        let i = choose|i: int| 0 <= i < n + 1 && members@[i]@.uid == k;
                        assert(i < n);
                    }
                }
            }
            n = n + 1;
        }
    }

    /// Seeds the members that `feed` declares, one `uid;secret` per line.
    pub fn seed_members_from_csv(&mut self, feed: &str)
        requires
            old(self).wf(),
        ensures
            final(self).wf(),
            forall|k: Seq<char>| #[trigger]
                final(self)@.contains_key(k) <==> old(self)@.contains_key(k) || exists|i: int|
                    0 <= i < members_of_feed(feed@).len() && members_of_feed(feed@)[i].uid == k,
            forall|i: int|
                0 <= i < members_of_feed(feed@).len() && (forall|j: int|
                    i < j < members_of_feed(feed@).len() ==> members_of_feed(feed@)[j].uid
                        != members_of_feed(feed@)[i].uid) ==> final(self)@[#[trigger] members_of_feed(
                    feed@,
                )[i].uid] == members_of_feed(feed@)[i],
    {
        let members = parse_members(feed);
        proof {
            let ms = members@.map_values(|m: Member| m@);
            assert forall|i: int| 0 <= i < members@.len() implies #[trigger] members@[i]@ == ms[i] by {}
        }
        self.set_members(&members);
    }
}

} // verus!
