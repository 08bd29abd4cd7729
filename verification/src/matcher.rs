//! The registry of commands, and what it makes of a typed token.

use crate::distance::{edit_distance, levenshtein};
use crate::scan::{
    classify, is_first_exact, is_nearest, lemma_earlier_wins_tie, lemma_first_exact_exists,
    lemma_first_exact_wins, none_exact, verdict, Probe, Verdict,
};
use crate::text::{debug_text, hit_text, miss_text, near_text, quote, write_hit, write_miss, write_near};
use vstd::prelude::*;

verus! {

/// One invocable command. Its owner implements this; the registry only
/// borrows it.
///
/// An implementation owes the registry two things, and the contracts of
/// [`Command::matches`] and [`Command::to_str`] say so: the name is the same
/// every time, and whether a candidate invokes the command depends on the
/// command and on the characters of the candidate alone. Both methods always
/// return and change nothing.
///
/// A verified implementation states [`Command::name`] and [`Command::takes`]
/// and is held to them. One written in plain Rust cannot state them, and
/// nothing holds it to the contracts: it is left with the bodies given here,
/// which say nothing of either. Behind a `&dyn Command` the registry knows of
/// the two only what the contracts say.
pub trait Command {
    /// The canonical name of this command.
    open spec fn name(&self) -> Seq<char> {
        arbitrary()
    }

    /// Whether this command takes `candidate` for a direct invocation.
    open spec fn takes(&self, candidate: Seq<char>) -> bool {
        arbitrary()
    }

    /// Whether `s` is to be taken as a direct invocation of this command,
    /// however far it is from the name.
    fn matches(&self, s: &str) -> (hit: bool)
        ensures
            hit == self.takes(s@),
    ;

    /// The canonical name: shown to the user, and what candidates are
    /// measured against.
    fn to_str(&self) -> (name: &str)
        ensures
            name@ == self.name(),
    ;

    /// Runs the command. The registry never calls this; the caller does,
    /// after a hit.
    fn exec(&self, args: &str);
}

/// The name of `command` as it stands in the text of a result.
pub open spec fn quoted_name<C: Command + ?Sized>(command: &C) -> Seq<char> {
    debug_text(command.name())
}

/// What a registry concluded about a candidate. It borrows the command it
/// names, not the registry.
///
/// The commands of a registry are trait objects, and that is what `C` stands
/// for unless it is named.
pub enum MatchResult<'a, C: ?Sized + 'a = dyn Command + 'a> {
    /// The command took the candidate for a direct invocation.
    Hit(&'a C),
    /// No command did; this one's name is the closest, at this distance.
    Near(&'a C, usize),
    /// No command did, and no name is close enough.
    Miss,
}

impl<'a, C: Command + ?Sized> MatchResult<'a, C> {
    /// The text form: `Hit("name")`, `Near("name", 2)` or `Miss`.
    pub open spec fn text(self) -> Seq<char> {
        match self {
            MatchResult::Hit(command) => hit_text(quoted_name(command)),
            MatchResult::Near(command, distance) => near_text(
                quoted_name(command),
                distance as nat,
            ),
            MatchResult::Miss => miss_text(),
        }
    }

    /// Writes the result out for a log: see [`MatchResult::text`].
    pub fn render(&self) -> (text: String)
        ensures
            text@ == self.text(),
    {
        match *self {
            MatchResult::Hit(command) => {
                let quoted = quote(command.to_str());
                write_hit(quoted.as_str())
            },
            MatchResult::Near(command, distance) => {
                let quoted = quote(command.to_str());
                write_near(quoted.as_str(), distance)
            },
            MatchResult::Miss => write_miss(),
        }
    }
}

/// How far the name of `command` is from `candidate`.
pub open spec fn distance_to<C: Command + ?Sized>(command: &C, candidate: Seq<char>) -> nat {
    edit_distance(command.name(), candidate)
}

/// What `command` shows for `candidate`: whether it is invoked directly, and
/// otherwise, if distances are taken, how far its name is.
pub open spec fn probe_of<C: Command + ?Sized>(
    command: &C,
    candidate: Seq<char>,
    with_distance: bool,
) -> Probe {
    if command.takes(candidate) {
        Probe::Exact
    } else if with_distance {
        Probe::Apart(distance_to(command, candidate) as usize)
    } else {
        Probe::Unscored
    }
}

/// The result that names the commands of `commands` at the positions that
/// `found` speaks of.
pub open spec fn resolve<'a, C: ?Sized>(commands: Seq<&'a C>, found: Verdict) -> MatchResult<'a, C> {
    match found {
        Verdict::Hit(at) => MatchResult::Hit(commands[at as int]),
        Verdict::Near(at, distance) => MatchResult::Near(commands[at as int], distance),
        Verdict::Miss => MatchResult::Miss,
    }
}

/// An ordered registry of commands. The order is that of registration, and
/// it decides between commands that are otherwise on a par.
pub struct CommandMatcher<'a> {
    commands: Vec<&'a dyn Command>,
    with_distance: bool,
}

impl<'a> CommandMatcher<'a> {
    /// The registered commands, first registered first.
    ///
    /// A caller speaks of a registered command by its position: of
    /// `self@[i].name()`, of [`probe_of`], [`distance_to`] and
    /// [`quoted_name`] applied to `self@[i]`.
    pub closed spec fn view(&self) -> Seq<&'a dyn Command> {
        self.commands@
    }

    /// Whether the registry measures how far a candidate is from the names.
    /// Without that it only knows hits and misses.
    pub closed spec fn with_distance(&self) -> bool {
        self.with_distance
    }

    /// What each command, in turn, shows for `candidate`.
    pub open spec fn probes(&self, candidate: Seq<char>) -> Seq<Probe> {
        Seq::new(self@.len(), |i: int| probe_of(self@[i], candidate, self.with_distance()))
    }

    /// What the registry makes of `candidate` under the bound `max_distance`.
    pub open spec fn classification(&self, candidate: Seq<char>, max_distance: usize) -> MatchResult<'a> {
        resolve(self@, verdict(self.probes(candidate), max_distance))
    }

    /// Appends `command` to the registry. Nothing is checked and nothing is
    /// removed: a command may be registered twice, and what was registered
    /// before stays where it was.
    ///
    /// Afterwards the command is the last of the registry, and a caller
    /// speaks of it as `self@.last()`. Verus converts a `&dyn Command` where
    /// it is handed to a function and does not see through the conversion,
    /// so a caller cannot go on to show that `self@.last()` is the very
    /// reference that it holds.
    pub fn register(&mut self, command: &'a dyn Command)
        ensures
            final(self)@.len() == old(self)@.len() + 1,
            final(self)@.drop_last() == old(self)@,
            final(self)@.last() == command,
            final(self).with_distance() == old(self).with_distance(),
    {
        // The reference goes in as a vector of one. Pushed, it would be
        // converted to the element type on the way, and Verus does not see
        // through that conversion of a trait object.
        let mut last = vec![command];
        self.commands.append(&mut last);
    }

    /// The number of registered commands.
    pub fn len(&self) -> (n: usize)
        ensures
            n == self@.len(),
    {
        self.commands.len()
    }

    /// Whether nothing is registered yet.
    pub fn is_empty(&self) -> (empty: bool)
        ensures
            empty == (self@.len() == 0),
    {
        self.commands.len() == 0
    }

    /// Asks the commands in turn what they show for `s`, and stops after the
    /// first that is invoked directly.
    fn probe(&self, s: &str) -> (probes: Vec<Probe>)
        ensures
            probes@.len() <= self@.len(),
            probes@ == self.probes(s@).take(probes@.len() as int),
            probes@.len() < self@.len() ==> probes@.len() > 0 && probes@.last() is Exact,
            forall|i: int| 0 <= i < probes@.len() - 1 ==> !(#[trigger] probes@[i] is Exact),
    {
        let mut probes: Vec<Probe> = Vec::new();
        let mut i: usize = 0;
        while i < self.commands.len()
            invariant
                i <= self@.len(),
                probes@.len() == i,
                probes@ == self.probes(s@).take(i as int),
                forall|j: int| 0 <= j < i ==> !(#[trigger] probes@[j] is Exact),
            decreases self.commands.len() - i,
        {
            let command = self.commands[i];
            if command.matches(s) {
                probes.push(Probe::Exact);
                return probes;
            }
            if self.with_distance {
                let distance = levenshtein(command.to_str(), s);
                probes.push(Probe::Apart(distance));
            } else {
                probes.push(Probe::Unscored);
            }
            i = i + 1;
        }
        probes
    }

    /// Classifies `s`.
    ///
    /// The commands are asked in the order of registration. The first whose
    /// own predicate accepts `s` is a hit, and ends the search: the commands
    /// after it are not asked. If none accepts, the command whose name is the
    /// fewest edits from `s` is a near miss, provided that distance is at
    /// most `max_distance`; of several equally close, the first registered.
    /// A registry that takes no distances ignores `max_distance` and knows
    /// hits and misses only.
    ///
    /// The result is [`CommandMatcher::classification`]. The other clauses
    /// say the same without it: when a hit is owed, and, by position, which
    /// command the result names and why.
    ///
    /// At least one command has to be registered.
    pub fn find_match(&self, s: &str, max_distance: usize) -> (result: MatchResult<'a>)
        requires
            self@.len() > 0,
        ensures
            result == self.classification(s@, max_distance),
            result is Hit <==> exists|i: int| 0 <= i < self@.len() && #[trigger] self@[i].takes(s@),
            match result {
                MatchResult::Hit(command) => exists|at: int|
                    {
                        &&& #[trigger] is_first_exact(self.probes(s@), at)
                        &&& command == self@[at]
                    },
                MatchResult::Near(command, distance) => exists|at: int|
                    {
                        &&& none_exact(self.probes(s@))
                        &&& #[trigger] is_nearest(self.probes(s@), at)
                        &&& command == self@[at]
                        &&& self.probes(s@)[at] == Probe::Apart(distance)
                        &&& distance <= max_distance
                    },
                MatchResult::Miss => {
                    &&& none_exact(self.probes(s@))
                    &&& forall|i: int|
                        0 <= i < self@.len() && #[trigger] self.probes(s@)[i] is Apart
                            ==> self.probes(s@)[i]->Apart_0 > max_distance
                },
            },
    {
        let probes = self.probe(s);
        let found = classify(&probes, max_distance);
        proof {
            let all = self.probes(s@);
            let seen = probes@.len() as int;
            if seen < all.len() {
                // The scan stopped at a hit: what follows does not count.
                assert forall|j: int| 0 <= j < seen implies all[j] == probes@[j] by {}
                assert(is_first_exact(all, seen - 1));
                lemma_first_exact_wins(all, max_distance, seen - 1);
            } else {
                assert(probes@ == all);
            }
            assert forall|i: int| 0 <= i < self@.len() implies (#[trigger] self@[i].takes(s@)
                <==> all[i] is Exact) by {}
        }
        match found {
            // Each result is bound before it is returned: built where the
            // type is already asked for, the reference would be converted on
            // its way in, and Verus does not see through that conversion.
            Verdict::Hit(at) => {
                assert(is_first_exact(self.probes(s@), at as int));
                let result = MatchResult::Hit(self.commands[at]);
                result
            },
            Verdict::Near(at, distance) => {
                assert(is_nearest(self.probes(s@), at as int));
                let result = MatchResult::Near(self.commands[at], distance);
                result
            },
            Verdict::Miss => MatchResult::Miss,
        }
    }
}

impl CommandMatcher<'_> {
    /// An empty registry that takes distances.
    pub fn new() -> (matcher: CommandMatcher<'static>)
        ensures
            matcher@.len() == 0,
            matcher.with_distance(),
    {
        CommandMatcher { commands: Vec::new(), with_distance: true }
    }

    /// An empty registry that takes no distances: it only knows hits and
    /// misses.
    pub fn exact_only() -> (matcher: CommandMatcher<'static>)
        ensures
            matcher@.len() == 0,
            !matcher.with_distance(),
    {
        CommandMatcher { commands: Vec::new(), with_distance: false }
    }
}

/// Of two registered commands whose names are equally far from the
/// candidate, the one registered later is never the near miss: the tie goes
/// to the one registered first.
pub proof fn lemma_first_registered_wins_tie(
    matcher: CommandMatcher,
    candidate: Seq<char>,
    max_distance: usize,
    i: int,
    j: int,
)
    requires
        0 <= i < j < matcher@.len(),
        distance_to(matcher@[i], candidate) == distance_to(matcher@[j], candidate),
    ensures
        verdict(matcher.probes(candidate), max_distance) matches Verdict::Near(at, _) ==> at != j,
{
    let probes = matcher.probes(candidate);
    assert(matcher.commands.len() == matcher@.len());
    if verdict(probes, max_distance) is Near {
        assert(!(probes[i] is Exact) && !(probes[j] is Exact)) by {
            if probes[i] is Exact {
                lemma_first_exact_exists(probes, i);
            }
            if probes[j] is Exact {
                lemma_first_exact_exists(probes, j);
            }
        }
        if matcher.with_distance() {
            lemma_earlier_wins_tie(probes, max_distance, i, j);
        }
    }
}

/// A result names a command by itself and does not look into the registry
/// again. After one more registration the commands registered before are
/// where they were and show what they showed, so a verdict reached before
/// still names the same command.
pub proof fn lemma_results_outlast_registration(
    before: CommandMatcher,
    after: CommandMatcher,
    candidate: Seq<char>,
    max_distance: usize,
)
    requires
        after@.len() == before@.len() + 1,
        after@.drop_last() == before@,
        after.with_distance() == before.with_distance(),
    ensures
        after.probes(candidate).drop_last() == before.probes(candidate),
        resolve(after@, verdict(before.probes(candidate), max_distance)) == before.classification(
            candidate,
            max_distance,
        ),
{
    assert forall|k: int| 0 <= k < before@.len() implies after@[k] == before@[k] by {}
}

/// A hit stays: one more registration does not change which command a
/// candidate invokes directly.
pub proof fn lemma_hit_survives_registration(
    before: CommandMatcher,
    after: CommandMatcher,
    candidate: Seq<char>,
    max_distance: usize,
)
    requires
        after@.len() == before@.len() + 1,
        after@.drop_last() == before@,
        after.with_distance() == before.with_distance(),
        before.classification(candidate, max_distance) is Hit,
    ensures
        after.classification(candidate, max_distance) == before.classification(
            candidate,
            max_distance,
        ),
{
    let probes = before.probes(candidate);
    let more = after.probes(candidate);
    let i = choose|i: int| is_first_exact(probes, i);
    assert forall|k: int| 0 <= k <= i implies more[k] == probes[k] by {}
    lemma_first_exact_wins(probes, max_distance, i);
    lemma_first_exact_wins(more, max_distance, i);
}

} // verus!
