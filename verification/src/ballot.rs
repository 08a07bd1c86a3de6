//! The ballot box: one vote per user, counted when the voting round ends.

use vstd::prelude::*;
use crate::actions::{activate_vote, activation, activation_outcome, GameAction};
use vstd::utf8::is_ascii_chars;
use crate::text::{ascii_lowercase_text, lowercase_of, to_lowercase};
use crate::voting::VotingPhase;

verus! {

/// A (user, text) pair seen as plain character sequences.
pub open spec fn pair_view(e: (String, String)) -> (Seq<char>, Seq<char>) {
    (e.0@, e.1@)
}

/// A list of (user, text) pairs seen as plain character sequences.
pub open spec fn pairs_view(v: Seq<(String, String)>) -> Seq<(Seq<char>, Seq<char>)> {
    v.map_values(|e: (String, String)| pair_view(e))
}

/// The user-to-text map that a list of pairs describes.
pub open spec fn map_of(s: Seq<(Seq<char>, Seq<char>)>) -> Map<Seq<char>, Seq<char>>
    decreases s.len(),
{
    if s.len() == 0 {
        Map::empty()
    } else {
        map_of(s.drop_last()).insert(s.last().0, s.last().1)
    }
}

/// No user occurs twice in the list.
pub open spec fn unique_users(s: Seq<(Seq<char>, Seq<char>)>) -> bool {
    forall|i: int, j: int| 0 <= i < j < s.len() ==> s[i].0 != s[j].0
}

/// Number of pairs in the list whose text is `text`.
pub open spec fn count_text(s: Seq<(Seq<char>, Seq<char>)>, text: Seq<char>) -> nat
    decreases s.len(),
{
    if s.len() == 0 {
        0
    } else {
        count_text(s.drop_last(), text) + if s.last().1 == text {
            1nat
        } else {
            0nat
        }
    }
}

/// The users whose vote is `text`.
pub open spec fn voters_for(votes: Map<Seq<char>, Seq<char>>, text: Seq<char>) -> Set<Seq<char>> {
    votes.dom().filter(|u: Seq<char>| votes[u] == text)
}

/// Number of users whose vote is `text`.
pub open spec fn tally(votes: Map<Seq<char>, Seq<char>>, text: Seq<char>) -> nat {
    voters_for(votes, text).len()
}

/// `text` got at least one vote and no text got more.
pub open spec fn is_top_vote(votes: Map<Seq<char>, Seq<char>>, text: Seq<char>) -> bool {
    &&& tally(votes, text) > 0
    &&& forall|other: Seq<char>| tally(votes, other) <= tally(votes, text)
}

/// The votes of the current round: at most one text per user, the user's
/// latest.
pub struct Votes {
    entries: Vec<(String, String)>,
}

impl Votes {
    /// The stored pairs, in the order in which the users first voted.
    pub closed spec fn pairs(self) -> Seq<(Seq<char>, Seq<char>)> {
        pairs_view(self.entries@)
    }

    #[verifier::type_invariant]
    closed spec fn well_formed(self) -> bool {
        unique_users(self.pairs())
    }
}

impl View for Votes {
    type V = Map<Seq<char>, Seq<char>>;

    /// Each user who voted, mapped to the text of the user's vote.
    closed spec fn view(&self) -> Map<Seq<char>, Seq<char>> {
        map_of(self.pairs())
    }
}

proof fn lemma_map_of_dom(s: Seq<(Seq<char>, Seq<char>)>)
    ensures
        map_of(s).dom().finite(),
        forall|k: Seq<char>|
            map_of(s).dom().contains(k) <==> exists|i: int| 0 <= i < s.len() && #[trigger] s[i].0 == k,
    decreases s.len(),
{
    if s.len() > 0 {
        let p = s.drop_last();
        lemma_map_of_dom(p);
        assert forall|k: Seq<char>|
            map_of(s).dom().contains(k) <==> exists|i: int| 0 <= i < s.len() && #[trigger] s[i].0 == k by {
            if map_of(s).dom().contains(k) {
                if k == s.last().0 {
                    assert(s[s.len() - 1].0 == k);
                } else {
                    let i = choose|i: int| 0 <= i < p.len() && #[trigger] p[i].0 == k;
                    assert(s[i].0 == k);
                }
            }
            if exists|i: int| 0 <= i < s.len() && #[trigger] s[i].0 == k {
                let i = choose|i: int| 0 <= i < s.len() && #[trigger] s[i].0 == k;
                if i < s.len() - 1 {
                    assert(p[i].0 == k);
                }
            }
        }
    }
}

proof fn lemma_unique_prefix(s: Seq<(Seq<char>, Seq<char>)>)
    requires
        unique_users(s),
        s.len() > 0,
    ensures
        unique_users(s.drop_last()),
        !map_of(s.drop_last()).dom().contains(s.last().0),
{
    let p = s.drop_last();
    assert forall|i: int, j: int| 0 <= i < j < p.len() implies p[i].0 != p[j].0 by {
        assert(p[i] == s[i] && p[j] == s[j]);
    }
    lemma_map_of_dom(p);
    if map_of(p).dom().contains(s.last().0) {
        let i = choose|i: int| 0 <= i < p.len() && #[trigger] p[i].0 == s.last().0;
        assert(s[i].0 == s[s.len() - 1].0);
    }
}

proof fn lemma_map_of_index(s: Seq<(Seq<char>, Seq<char>)>, i: int)
    requires
        unique_users(s),
        0 <= i < s.len(),
    ensures
        map_of(s)[s[i].0] == s[i].1,
    decreases s.len(),
{
    if i < s.len() - 1 {
        lemma_unique_prefix(s);
        assert(s.drop_last()[i] == s[i]);
        lemma_map_of_index(s.drop_last(), i);
    }
}

proof fn lemma_map_of_update(s: Seq<(Seq<char>, Seq<char>)>, i: int, text: Seq<char>)
    requires
        unique_users(s),
        0 <= i < s.len(),
    ensures
        map_of(s.update(i, (s[i].0, text))) =~= map_of(s).insert(s[i].0, text),
        unique_users(s.update(i, (s[i].0, text))),
    decreases s.len(),
{
    let u = s.update(i, (s[i].0, text));
    assert forall|a: int, b: int| 0 <= a < b < u.len() implies u[a].0 != u[b].0 by {
        assert(u[a].0 == s[a].0 && u[b].0 == s[b].0);
    }
    if i == s.len() - 1 {
        assert(u.drop_last() =~= s.drop_last());
    } else {
        lemma_unique_prefix(s);
        assert(u.drop_last() =~= s.drop_last().update(i, (s[i].0, text)));
        assert(s.drop_last()[i] == s[i]);
        lemma_map_of_update(s.drop_last(), i, text);
        assert(s[i].0 != s.last().0);
    }
}

proof fn lemma_tally_count(s: Seq<(Seq<char>, Seq<char>)>, text: Seq<char>)
    requires
        unique_users(s),
    ensures
        tally(map_of(s), text) == count_text(s, text),
    decreases s.len(),
{
    let m = map_of(s);
    if s.len() == 0 {
        assert(voters_for(m, text) =~= Set::<Seq<char>>::empty());
    } else {
        let p = s.drop_last();
        let mp = map_of(p);
        lemma_unique_prefix(s);
        lemma_tally_count(p, text);
        lemma_map_of_dom(p);
        let k = s.last().0;
        let f = voters_for(m, text);
        let fp = voters_for(mp, text);
        vstd::set_lib::lemma_len_subset(fp, mp.dom());
        assert(fp.len() == count_text(p, text));
        assert(!fp.contains(k));
        if s.last().1 == text {
            assert(f =~= fp.insert(k));
            assert(f.len() == fp.len() + 1);
        } else {
            assert(f =~= fp);
        }
        assert(count_text(s, text) == count_text(p, text) + if s.last().1 == text {
            1nat
        } else {
            0nat
        });
    }
}

proof fn lemma_count_at(s: Seq<(Seq<char>, Seq<char>)>, i: int)
    requires
        0 <= i < s.len(),
    ensures
        count_text(s, s[i].1) >= 1,
    decreases s.len(),
{
    if i < s.len() - 1 {
        assert(s.drop_last()[i] == s[i]);
        lemma_count_at(s.drop_last(), i);
    }
}

proof fn lemma_count_witness(s: Seq<(Seq<char>, Seq<char>)>, text: Seq<char>)
    requires
        count_text(s, text) > 0,
    ensures
        exists|j: int| 0 <= j < s.len() && #[trigger] s[j].1 == text,
    decreases s.len(),
{
    if s.last().1 == text {
        assert(s[s.len() - 1].1 == text);
    } else {
        lemma_count_witness(s.drop_last(), text);
        let j = choose|j: int| 0 <= j < s.drop_last().len() && #[trigger] s.drop_last()[j].1 == text;
        assert(s[j].1 == text);
    }
}

proof fn lemma_count_bound(s: Seq<(Seq<char>, Seq<char>)>, text: Seq<char>)
    ensures
        count_text(s, text) <= s.len(),
    decreases s.len(),
{
    if s.len() > 0 {
        lemma_count_bound(s.drop_last(), text);
    }
}

impl Votes {
    /// An empty ballot box.
    pub fn new() -> (votes: Votes)
        ensures
            votes@ == Map::<Seq<char>, Seq<char>>::empty(),
    {
        let votes = Votes { entries: Vec::new() };
        assert(votes.pairs() =~= Seq::<(Seq<char>, Seq<char>)>::empty());
        votes
    }

    /// Records `text` as `user`'s vote, replacing the user's earlier vote.
    fn record(&mut self, user: String, text: String)
        ensures
            final(self)@ == old(self)@.insert(user@, text@),
    {
        proof {
            use_type_invariant(&*self);
        }
        let ghost before = self.pairs();
        let mut entries: Vec<(String, String)> = Vec::new();
        std::mem::swap(&mut entries, &mut self.entries);
        assert(pairs_view(entries@) == before);
        let n = entries.len();
        let mut i: usize = 0;
        while i < n
            invariant
                n == entries.len(),
                pairs_view(entries@) == before,
                unique_users(before),
                before == old(self).pairs(),
                i <= n,
                forall|j: int| 0 <= j < i ==> before[j].0 != user@,
            decreases n - i,
        {
            if entries[i].0 == user {
                let ghost text_view = text@;
                proof {
                    lemma_map_of_update(before, i as int, text_view);
                }
                entries.set(i, (user, text));
                assert(pairs_view(entries@) =~= before.update(
                    i as int,
                    (before[i as int].0, text_view),
                ));
                self.entries = entries;
                return;
            }
            i = i + 1;
        }
        let ghost user_view = user@;
        let ghost text_view = text@;
        entries.push((user, text));
        assert(pairs_view(entries@) =~= before.push((user_view, text_view)));
        assert(pairs_view(entries@).drop_last() =~= before);
        assert forall|a: int, b: int|
            0 <= a < b < pairs_view(entries@).len() implies pairs_view(entries@)[a].0
            != pairs_view(entries@)[b].0 by {
            if b == before.len() {
                assert(before[a].0 != user_view);
            } else {
                assert(pairs_view(entries@)[a] == before[a]);
                assert(pairs_view(entries@)[b] == before[b]);
            }
        }
        self.entries = entries;
    }
}

/// Records the vote `message_text` of user `user_id` (in lowercase),
/// replacing that user's earlier vote of this round.
pub fn add_vote(votes: &mut Votes, user_id: String, message_text: String)
    ensures
        final(votes)@ == old(votes)@.insert(user_id@, lowercase_of(message_text@)),
        is_ascii_chars(message_text@) ==> lowercase_of(message_text@) == ascii_lowercase_text(
            message_text@,
        ),
{
    let lowered = to_lowercase(message_text.as_str());
    votes.record(user_id, lowered);
}

/// The outcome of a voting round: the winning text, its number of votes,
/// and what the game is told to do.
pub struct Election {
    pub winner: String,
    pub votes: usize,
    pub action: GameAction,
}

/// Ending the round whose votes were `before`, in phase `phase_before`,
/// gave `result` and left the votes `after` and the phase `phase_after`:
/// the votes are gone; without votes nothing happens; otherwise a text with
/// the most votes wins (any of them on a tie) and is acted on.
pub open spec fn round_result(
    before: Map<Seq<char>, Seq<char>>,
    phase_before: VotingPhase,
    result: Option<Election>,
    after: Map<Seq<char>, Seq<char>>,
    phase_after: VotingPhase,
) -> bool {
    &&& after == Map::<Seq<char>, Seq<char>>::empty()
    &&& (result is None <==> before == Map::<Seq<char>, Seq<char>>::empty())
    &&& result is None ==> phase_after == phase_before
    &&& result matches Some(e) ==> {
        &&& is_top_vote(before, e.winner@)
        &&& e.votes == tally(before, e.winner@)
        &&& activation(e.winner@, phase_before) == Some((e.action, phase_after))
    }
}

/// Every text that can win a round with the votes `votes` can be acted on
/// in `phase`.
pub open spec fn round_actionable(votes: Map<Seq<char>, Seq<char>>, phase: VotingPhase) -> bool {
    forall|t: Seq<char>| is_top_vote(votes, t) ==> activation(t, phase) is Some
}

proof fn lemma_top_votes(s: Seq<(Seq<char>, Seq<char>)>, i: int, n: nat)
    requires
        unique_users(s),
        0 <= i < s.len(),
        n == count_text(s, s[i].1),
        forall|j: int| 0 <= j < s.len() ==> count_text(s, #[trigger] s[j].1) <= n,
    ensures
        n >= 1,
        forall|t: Seq<char>| is_top_vote(map_of(s), t) <==> count_text(s, t) == n,
{
    lemma_count_at(s, i);
    assert forall|t: Seq<char>| is_top_vote(map_of(s), t) <==> count_text(s, t) == n by {
        lemma_tally_count(s, t);
        lemma_tally_count(s, s[i].1);
        if is_top_vote(map_of(s), t) {
            assert(tally(map_of(s), s[i].1) <= tally(map_of(s), t));
            lemma_count_witness(s, t);
            let j = choose|j: int| 0 <= j < s.len() && #[trigger] s[j].1 == t;
            assert(count_text(s, s[j].1) <= n);
        }
        if count_text(s, t) == n {
            assert forall|other: Seq<char>| tally(map_of(s), other) <= tally(map_of(s), t) by {
                lemma_tally_count(s, other);
                if count_text(s, other) > 0 {
                    lemma_count_witness(s, other);
                    let j = choose|j: int| 0 <= j < s.len() && #[trigger] s[j].1 == other;
                    assert(count_text(s, s[j].1) <= n);
                }
            }
        }
    }
}

proof fn lemma_empty_round(s: Seq<(Seq<char>, Seq<char>)>)
    ensures
        s.len() == 0 <==> map_of(s) == Map::<Seq<char>, Seq<char>>::empty(),
{
    lemma_map_of_dom(s);
    if s.len() > 0 {
        assert(s[0].0 == s[0].0);
        assert(map_of(s).dom().contains(s[0].0));
    }
}

impl Votes {
    /// Removes every vote.
    fn clear(&mut self)
        ensures
            final(self)@ == Map::<Seq<char>, Seq<char>>::empty(),
    {
        self.entries = Vec::new();
        assert(self.pairs() =~= Seq::<(Seq<char>, Seq<char>)>::empty());
    }

    /// Number of stored votes whose text is `text`.
    fn count_of(&self, text: &String) -> (n: usize)
        ensures
            n == count_text(self.pairs(), text@),
    {
        let ghost s = self.pairs();
        let len = self.entries.len();
        let mut n: usize = 0;
        for j in 0..len
            invariant
                len == self.entries.len(),
                s == self.pairs(),
                n == count_text(s.take(j as int), text@),
                n <= j,
        {
            assert(s.take(j + 1).drop_last() =~= s.take(j as int));
            assert(s[j as int] == pair_view(self.entries@[j as int]));
            if self.entries[j].1 == *text {
                n = n + 1;
            }
        }
        assert(s.take(len as int) =~= s);
        n
    }

    /// Index of a text with the most votes, and that number of votes.
    fn leader(&self) -> (r: Option<(usize, usize)>)
        ensures
            r is None <==> self.pairs().len() == 0,
            r matches Some((i, n)) ==> {
                &&& i < self.pairs().len()
                &&& n == count_text(self.pairs(), self.pairs()[i as int].1)
                &&& forall|j: int|
                    0 <= j < self.pairs().len() ==> count_text(
                        self.pairs(),
                        #[trigger] self.pairs()[j].1,
                    ) <= n
            },
    {
        let ghost s = self.pairs();
        let len = self.entries.len();
        let mut best: Option<(usize, usize)> = None;
        for j in 0..len
            invariant
                len == self.entries.len(),
                s == self.pairs(),
                best is None <==> j == 0,
                best matches Some((i, n)) ==> {
                    &&& i < j
                    &&& n == count_text(s, s[i as int].1)
                    &&& forall|k: int| 0 <= k < j ==> count_text(s, #[trigger] s[k].1) <= n
                },
        {
            assert(s[j as int] == pair_view(self.entries@[j as int]));
            let c = self.count_of(&self.entries[j].1);
            match best {
                None => {
                    best = Some((j, c));
                },
                Some((_, n)) => {
                    if c > n {
                        best = Some((j, c));
                    }
                },
            }
        }
        best
    }

    /// Whether every text that can win this round can be acted on in
    /// `phase`.
    fn actionable(&self, phase: VotingPhase) -> (r: bool)
        ensures
            r == round_actionable(self@, phase),
    {
        proof {
            use_type_invariant(self);
        }
        let ghost s = self.pairs();
        match self.leader() {
            None => {
                proof {
                    assert forall|t: Seq<char>| !is_top_vote(self@, t) by {
                        lemma_tally_count(s, t);
                    }
                }
                true
            },
            Some((i, n)) => {
                proof {
                    lemma_top_votes(s, i as int, n as nat);
                }
                let len = self.entries.len();
                for j in 0..len
                    invariant
                        len == self.entries.len(),
                        s == self.pairs(),
                        forall|t: Seq<char>| is_top_vote(self@, t) <==> count_text(s, t) == n,
                        forall|k: int|
                            0 <= k < j && count_text(s, #[trigger] s[k].1) == n ==> activation(
                                s[k].1,
                                phase,
                            ) is Some,
                {
                    assert(s[j as int] == pair_view(self.entries@[j as int]));
                    let c = self.count_of(&self.entries[j].1);
                    if c == n && activation_outcome(self.entries[j].1.as_str(), phase).is_none() {
                        assert(is_top_vote(self@, s[j as int].1));
                        return false;
                    }
                }
                proof {
                    assert forall|t: Seq<char>| is_top_vote(self@, t) implies activation(
                        t,
                        phase,
                    ) is Some by {
                        lemma_count_witness(s, t);
                        let k = choose|k: int| 0 <= k < s.len() && #[trigger] s[k].1 == t;
                        assert(count_text(s, s[k].1) == n);
                    }
                }
                true
            },
        }
    }
}

/// `text` is one of the texts in `counts`.
pub open spec fn is_listed(counts: Seq<(String, usize)>, text: Seq<char>) -> bool {
    exists|i: int| 0 <= i < counts.len() && #[trigger] counts[i].0@ == text
}

/// `counts` holds each text that got votes in `votes` exactly once, with
/// its number of votes.
pub open spec fn is_tally_list(votes: Map<Seq<char>, Seq<char>>, counts: Seq<(String, usize)>) -> bool {
    &&& forall|i: int|
        0 <= i < counts.len() ==> #[trigger] counts[i].1 >= 1 && counts[i].1 == tally(
            votes,
            counts[i].0@,
        )
    &&& forall|i: int, k: int| 0 <= i < k < counts.len() ==> counts[i].0@ != counts[k].0@
    &&& forall|t: Seq<char>| tally(votes, t) > 0 ==> #[trigger] is_listed(counts, t)
}

impl Votes {
    /// Each text that got votes, once, with its number of votes (in the
    /// order in which the texts were first voted).
    pub fn tallies(&self) -> (counts: Vec<(String, usize)>)
        ensures
            is_tally_list(self@, counts@),
    {
        proof {
            use_type_invariant(self);
        }
        let ghost s = self.pairs();
        let len = self.entries.len();
        let mut counts: Vec<(String, usize)> = Vec::new();
        for j in 0..len
            invariant
                len == self.entries.len(),
                s == self.pairs(),
                s.len() == len,
                unique_users(s),
                forall|i: int|
                    0 <= i < counts.len() ==> #[trigger] counts@[i].1 >= 1 && counts@[i].1
                        == count_text(s, counts@[i].0@),
                forall|i: int, k: int| 0 <= i < k < counts.len() ==> counts@[i].0@ != counts@[k].0@,
                forall|k: int| 0 <= k < j ==> #[trigger] is_listed(counts@, s[k].1),
        {
            assert(s[j as int] == pair_view(self.entries@[j as int]));
            let text = &self.entries[j].1;
            let ghost before = counts@;
            let mut found = false;
            let mut i: usize = 0;
            while i < counts.len()
                invariant
                    counts@ == before,
                    i <= counts.len(),
                    found ==> is_listed(counts@, text@),
                    !found ==> forall|i2: int| 0 <= i2 < i ==> counts@[i2].0@ != text@,
                decreases counts.len() - i,
            {
                if counts[i].0 == *text {
                    found = true;
                    assert(counts@[i as int].0@ == text@);
                }
                i = i + 1;
            }
            if !found {
                let n = self.count_of(text);
                proof {
                    lemma_count_at(s, j as int);
                }
                counts.push((text.clone(), n));
                assert(counts@[before.len() as int].0@ == s[j as int].1);
                assert forall|k: int| 0 <= k < j + 1 implies #[trigger] is_listed(counts@, s[k].1) by {
                    if k < j {
                        assert(is_listed(before, s[k].1));
                        let i2 = choose|i2: int| 0 <= i2 < before.len() && #[trigger] before[i2].0@ == s[k].1;
                        assert(counts@[i2] == before[i2]);
                    }
                }
            } else {
                assert(text@ == s[j as int].1);
            }
        }
        proof {
            assert forall|i: int| 0 <= i < counts.len() implies #[trigger] counts@[i].1 >= 1
                && counts@[i].1 == tally(self@, counts@[i].0@) by {
                lemma_tally_count(s, counts@[i].0@);
            }
            assert forall|t: Seq<char>| tally(self@, t) > 0 implies #[trigger] is_listed(counts@, t) by {
                lemma_tally_count(s, t);
                lemma_count_witness(s, t);
                let k = choose|k: int| 0 <= k < s.len() && #[trigger] s[k].1 == t;
                assert(is_listed(counts@, s[k].1));
            }
        }
        counts
    }
}

/// Ends the voting round: counts the votes, clears them, and acts on a
/// text with the most votes in `phase` (see `round_result`). Without votes
/// nothing happens.
pub fn collect_votes(votes: &mut Votes, phase: &mut VotingPhase) -> (r: Option<Election>)
    requires
        round_actionable(old(votes)@, *old(phase)),
    ensures
        round_result(old(votes)@, *old(phase), r, final(votes)@, *final(phase)),
{
    proof {
        use_type_invariant(&*votes);
    }
    let ghost s = votes.pairs();
    proof {
        lemma_empty_round(s);
    }
    match votes.leader() {
        None => {
            votes.clear();
            None
        },
        Some((i, n)) => {
            let winner = votes.entries[i].1.clone();
            assert(s[i as int] == pair_view(votes.entries@[i as int]));
            proof {
                lemma_top_votes(s, i as int, n as nat);
                lemma_tally_count(s, winner@);
            }
            votes.clear();
            let action = activate_vote(winner.clone(), phase);
            Some(Election { winner, votes: n, action })
        },
    }
}

/// `collect_votes` for any round: `None`, with the votes and the phase left
/// as they were, where a text that can win cannot be acted on; else `Some`
/// of what `collect_votes` returns.
pub fn checked_collect_votes(votes: &mut Votes, phase: &mut VotingPhase) -> (r: Option<
    Option<Election>,
>)
    ensures
        r is None <==> !round_actionable(old(votes)@, *old(phase)),
        r is None ==> final(votes)@ == old(votes)@ && *final(phase) == *old(phase),
        r matches Some(result) ==> round_result(
            old(votes)@,
            *old(phase),
            result,
            final(votes)@,
            *final(phase),
        ),
{
    if votes.actionable(*phase) {
        Some(collect_votes(votes, phase))
    } else {
        None
    }
}

/// Law: when every vote in the box can be acted on in `phase`, so can the
/// round's winner, whichever of the texts with the most votes it is.
pub proof fn round_of_actionable_votes(votes: Map<Seq<char>, Seq<char>>, phase: VotingPhase)
    requires
        forall|u: Seq<char>| votes.dom().contains(u) ==> activation(#[trigger] votes[u], phase) is Some,
    ensures
        round_actionable(votes, phase),
{
    assert forall|t: Seq<char>| is_top_vote(votes, t) implies activation(t, phase) is Some by {
        let u = voters_for(votes, t).choose();
        if !voters_for(votes, t).contains(u) {
            assert(voters_for(votes, t) =~= Set::<Seq<char>>::empty());
        }
        assert(votes.dom().contains(u));
    }
}

} // verus!
