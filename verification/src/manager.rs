//! The projection manager: which paths have been projected, which are being
//! projected right now, and who is to run a transformation.
//!
//! Every path is in one of three states. It starts out unmapped; the first
//! request for it puts it into the materializing state and tells the caller to
//! run the transformation; when that has succeeded the path is mapped, for
//! good. While a path is materializing every other request is told to wait,
//! and a failed transformation makes the path unmapped again.

use vstd::prelude::*;
use bimap::BiHashMap;
use crate::config::ProjectionSpecification;
use crate::mapping::{
    bimap_get_by_left,
    bimap_get_by_right,
    bimap_insert,
    bimap_new,
    bimap_remove_by_left,
    has_right,
    left_of,
    lemma_left_of,
    lemma_with_pair,
    no_pairs,
    one_to_one,
    pairs,
};
use crate::media::{guess_mime, guessed_mime, Mime, MimeView};
use crate::path::{absolute, is_absolute};
use crate::text::copy;

verus! {

/// How a file is served.
#[derive(Clone, Copy, Debug, PartialEq, Eq, Structural)]
pub enum AccessType {
    /// The transformed file in the cache is served.
    Projected,
    /// The file itself is served.
    PassThrough,
}

/// The state of a path.
pub enum PathState {
    Unmapped,
    Materializing,
    Mapped,
}

/// Why a projection could not be had.
#[derive(Clone, Copy, Debug, PartialEq, Eq, Structural)]
pub enum ProjectionError {
    /// The transformation could not be run or did not succeed.
    Transformation,
    /// Going on would break the one-to-one mapping: the name that the
    /// projection would get is taken, a path is not absolute, or a
    /// transformation was reported that nobody was told to run.
    MappingInvariant,
}

/// The answer to a request for the projection of a path.
#[derive(Clone, Debug, PartialEq, Eq)]
pub enum Materialization {
    /// The path is mapped: here is its cached path.
    Ready(Vec<u8>),
    /// Somebody else is running the transformation: wait for it to end.
    Pending,
    /// The caller is to run the transformation, which writes to this cached
    /// path, and to report how it ended.
    Start(Vec<u8>),
    /// The projection cannot be had.
    Refused,
}

/// A [`Materialization`], as mathematical values.
pub enum Step {
    Ready(Seq<u8>),
    Pending,
    Start(Seq<u8>),
    Refused,
}

impl View for Materialization {
    type V = Step;

    open spec fn view(&self) -> Step {
        match self {
            Materialization::Ready(dest) => Step::Ready(dest@),
            Materialization::Pending => Step::Pending,
            Materialization::Start(dest) => Step::Start(dest@),
            Materialization::Refused => Step::Refused,
        }
    }
}

/// What the manager knows: the mapped paths, each with its cached path, and
/// the paths that are being materialized, each with the cached path that is
/// being written.
pub struct Projections {
    pub mapped: Map<Seq<u8>, Seq<u8>>,
    pub materializing: Map<Seq<u8>, Seq<u8>>,
}

impl Projections {
    /// Nothing is mapped and nothing is being materialized.
    pub open spec fn empty() -> Projections {
        Projections { mapped: Map::empty(), materializing: Map::empty() }
    }

    /// No path is in two states, no cached path stands for two paths, and
    /// every path is absolute.
    pub open spec fn wf(self) -> bool {
        &&& one_to_one(self.mapped)
        &&& one_to_one(self.materializing)
        &&& forall|s: Seq<u8>|
            !(#[trigger] self.mapped.contains_key(s) && #[trigger] self.materializing.contains_key(
                s,
            ))
        &&& forall|d: Seq<u8>|
            !(#[trigger] has_right(self.mapped, d) && #[trigger] has_right(self.materializing, d))
        &&& forall|s: Seq<u8>| #[trigger]
            self.mapped.contains_key(s) ==> is_absolute(s) && is_absolute(self.mapped[s])
        &&& forall|s: Seq<u8>| #[trigger]
            self.materializing.contains_key(s) ==> is_absolute(s) && is_absolute(
                self.materializing[s],
            )
    }

    /// The state of the path `source`.
    pub open spec fn state(self, source: Seq<u8>) -> PathState {
        if self.mapped.contains_key(source) {
            PathState::Mapped
        } else if self.materializing.contains_key(source) {
            PathState::Materializing
        } else {
            PathState::Unmapped
        }
    }

    /// The cached path `dest` stands for some path already, mapped or being
    /// materialized.
    pub open spec fn claimed(self, dest: Seq<u8>) -> bool {
        has_right(self.mapped, dest) || has_right(self.materializing, dest)
    }

    /// The cached path of `source`, if it is mapped.
    pub open spec fn lookup_by_source(self, source: Seq<u8>) -> Option<Seq<u8>> {
        if self.mapped.contains_key(source) {
            Some(self.mapped[source])
        } else {
            None
        }
    }

    /// The path that the cached path `cache` stands for, if it stands for one.
    pub open spec fn lookup_by_cache(self, cache: Seq<u8>) -> Option<Seq<u8>> {
        if has_right(self.mapped, cache) {
            Some(left_of(self.mapped, cache))
        } else {
            None
        }
    }

    /// The answer to a request for the projection of `source`, which would be
    /// named `dest`.
    pub open spec fn request(self, source: Seq<u8>, dest: Seq<u8>) -> Step {
        if self.mapped.contains_key(source) {
            Step::Ready(self.mapped[source])
        } else if self.materializing.contains_key(source) {
            Step::Pending
        } else if !is_absolute(source) || !is_absolute(dest) || self.claimed(dest) {
            Step::Refused
        } else {
            Step::Start(dest)
        }
    }

    /// What is known after that request: the path is being materialized if
    /// the caller was told to start, and nothing has changed otherwise.
    pub open spec fn after_request(self, source: Seq<u8>, dest: Seq<u8>) -> Projections {
        if self.request(source, dest) is Start {
            Projections { materializing: self.materializing.insert(source, dest), ..self }
        } else {
            self
        }
    }

    /// What is known after the transformation of `source` was reported to have
    /// ended: the path is mapped if it succeeded and unmapped again if not. A
    /// report on a path that is not being materialized changes nothing.
    pub open spec fn after_completion(self, source: Seq<u8>, succeeded: bool) -> Projections {
        if !self.materializing.contains_key(source) {
            self
        } else if succeeded {
            Projections {
                mapped: self.mapped.insert(source, self.materializing[source]),
                materializing: self.materializing.remove(source),
            }
        } else {
            Projections { materializing: self.materializing.remove(source), ..self }
        }
    }

    /// What that report is answered with.
    pub open spec fn completion(self, source: Seq<u8>, succeeded: bool) -> Result<
        Seq<u8>,
        ProjectionError,
    > {
        if !self.materializing.contains_key(source) {
            Err(ProjectionError::MappingInvariant)
        } else if succeeded {
            Ok(self.materializing[source])
        } else {
            Err(ProjectionError::Transformation)
        }
    }

    /// What a caller that was told to wait finds when it looks again: nothing
    /// yet while the path is being materialized, the cached path once it is
    /// mapped, and the failure if it is unmapped again.
    pub open spec fn outcome(self, source: Seq<u8>) -> Option<Result<Seq<u8>, ProjectionError>> {
        match self.state(source) {
            PathState::Mapped => Some(Ok(self.mapped[source])),
            PathState::Materializing => None,
            PathState::Unmapped => Some(Err(ProjectionError::Transformation)),
        }
    }

    /// The number of callers that are told to start the transformation when
    /// `count` requests for `source` arrive one after the other.
    pub open spec fn starts(self, source: Seq<u8>, dest: Seq<u8>, count: nat) -> nat
        decreases count,
    {
        if count == 0 {
            0
        } else if self.request(source, dest) is Start {
            1 + self.after_request(source, dest).starts(source, dest, (count - 1) as nat)
        } else {
            self.after_request(source, dest).starts(source, dest, (count - 1) as nat)
        }
    }

    /// What is known after `count` requests for `source` one after the other.
    pub open spec fn after_requests(self, source: Seq<u8>, dest: Seq<u8>, count: nat) -> Projections
        decreases count,
    {
        if count == 0 {
            self
        } else {
            self.after_request(source, dest).after_requests(source, dest, (count - 1) as nat)
        }
    }
}

/// An answer that holds a cached path, as mathematical values.
pub open spec fn answer(r: Result<Vec<u8>, ProjectionError>) -> Result<Seq<u8>, ProjectionError> {
    match r {
        Ok(dest) => Ok(dest@),
        Err(e) => Err(e),
    }
}

/// How a file with the guessed content type `guess` is served under `policy`:
/// passed through where no type could be guessed, projected where the policy
/// says so.
pub open spec fn classified<P: ProjectionSpecification>(
    policy: P,
    guess: Option<(Seq<u8>, Seq<u8>)>,
) -> AccessType {
    match guess {
        None => AccessType::PassThrough,
        Some(found) => if policy.projects(MimeView { type_: found.0, subtype: found.1 }) {
            AccessType::Projected
        } else {
            AccessType::PassThrough
        },
    }
}

/// How a file is served whose content type was guessed as `guess`.
pub fn classify<P: ProjectionSpecification>(policy: &P, guess: &Option<Mime>) -> (r: AccessType)
    ensures
        r == classified(
            *policy,
            match *guess {
                Some(m) => Some((m.type_@, m.subtype@)),
                None => None,
            },
        ),
{
    match guess {
        None => AccessType::PassThrough,
        Some(mime) => if policy.should_project(mime) {
            AccessType::Projected
        } else {
            AccessType::PassThrough
        },
    }
}

/// The projection manager.
pub struct ProjectionManager<P: ProjectionSpecification> {
    projection: BiHashMap<Vec<u8>, Vec<u8>>,
    materializing: BiHashMap<Vec<u8>, Vec<u8>>,
    policy: P,
}

impl<P: ProjectionSpecification> View for ProjectionManager<P> {
    type V = Projections;

    closed spec fn view(&self) -> Projections {
        Projections { mapped: pairs(self.projection), materializing: pairs(self.materializing) }
    }
}

impl<P: ProjectionSpecification> ProjectionManager<P> {
    /// The policy that the manager works under.
    pub closed spec fn policy(&self) -> P {
        self.policy
    }

    /// What the manager knows is consistent.
    pub open spec fn wf(&self) -> bool {
        self@.wf()
    }

    /// A manager that knows nothing yet.
    pub fn new(policy: P) -> (r: Self)
        ensures
            r@ == Projections::empty(),
            r.policy() == policy,
            r.wf(),
    {
        let r = ProjectionManager { projection: bimap_new(), materializing: bimap_new(), policy };
        assert(r@.wf()) by {
            assert(forall|d: Seq<u8>| !has_right(no_pairs(), d));
        }
        r
    }

    /// The cached path of `filepath`, if it is mapped.
    pub fn destination(&self, filepath: &Vec<u8>) -> (r: Option<Vec<u8>>)
        ensures
            r.is_some() == self@.lookup_by_source(filepath@).is_some(),
            r.is_some() ==> r.unwrap()@ == self@.lookup_by_source(filepath@).unwrap(),
    {
        bimap_get_by_left(&self.projection, filepath)
    }

    /// The path that the cached path `filepath` stands for, if it stands for
    /// one.
    pub fn source(&self, filepath: &Vec<u8>) -> (r: Option<Vec<u8>>)
        requires
            self.wf(),
        ensures
            r.is_some() == self@.lookup_by_cache(filepath@).is_some(),
            r.is_some() ==> r.unwrap()@ == self@.lookup_by_cache(filepath@).unwrap(),
    {
        let r = bimap_get_by_right(&self.projection, filepath);
        proof {
            if r.is_some() {
                lemma_left_of(self@.mapped, r.unwrap()@);
            }
        }
        r
    }

    /// How the file at `file_path` is served: by the content type guessed
    /// from its name.
    pub fn access_type(&self, file_path: &Vec<u8>) -> (r: AccessType)
        ensures
            r == classified(self.policy(), guessed_mime(file_path@)),
    {
        let guess = guess_mime(file_path);
        classify(&self.policy, &guess)
    }

    /// The command line that writes the projection of `input` to `output`.
    pub fn command(&self, input: &Vec<u8>, output: &Vec<u8>) -> (r: Vec<Vec<u8>>)
        ensures
            crate::text::lines(r@) == self.policy().command(input@, output@),
    {
        self.policy.project(input, output)
    }

    /// Asks for the projection of `partial`. Where it is there, the answer is
    /// its cached path; where somebody is making it, the answer is to wait;
    /// otherwise the caller is told to make it, unless that cannot be done.
    pub fn project(&mut self, partial: &Vec<u8>) -> (r: Materialization)
        requires
            old(self).wf(),
        ensures
            r@ == old(self)@.request(partial@, old(self).policy().converted(partial@)),
            final(self)@ == old(self)@.after_request(
                partial@,
                old(self).policy().converted(partial@),
            ),
            final(self).policy() == old(self).policy(),
            final(self).wf(),
    {
        match bimap_get_by_left(&self.projection, partial) {
            Some(dest) => {
                return Materialization::Ready(dest);
            },
            None => {},
        }
        if bimap_get_by_left(&self.materializing, partial).is_some() {
            return Materialization::Pending;
        }
        let dest = self.policy.convert_filename(partial);
        if !absolute(partial) || !absolute(&dest) || bimap_get_by_right(
            &self.projection,
            &dest,
        ).is_some() || bimap_get_by_right(&self.materializing, &dest).is_some() {
            return Materialization::Refused;
        }
        let ghost before = self@;
        bimap_insert(&mut self.materializing, copy(partial), copy(&dest));
        proof {
            lemma_with_pair(before.materializing, partial@, dest@);
            let after = self@;
            assert(after.materializing == before.materializing.insert(partial@, dest@));
            assert forall|d: Seq<u8>|
                !(#[trigger] has_right(after.mapped, d) && #[trigger] has_right(
                    after.materializing,
                    d,
                )) by {
                if has_right(after.mapped, d) && has_right(after.materializing, d) {
                    let s = left_of(after.materializing, d);
                    if s != partial@ {
                        assert(before.materializing.contains_key(s) && before.materializing[s]
                            == d);
                        assert(has_right(before.materializing, d));
                    }
                }
            }
        }
        Materialization::Start(dest)
    }

    /// Reports that the transformation of `partial` has ended, and how. Where
    /// it succeeded the path is mapped from now on and its cached path is
    /// handed back; where it failed the path is unmapped again.
    pub fn complete(&mut self, partial: &Vec<u8>, succeeded: bool) -> (r: Result<
        Vec<u8>,
        ProjectionError,
    >)
        requires
            old(self).wf(),
        ensures
            answer(r) == old(self)@.completion(partial@, succeeded),
            final(self)@ == old(self)@.after_completion(partial@, succeeded),
            final(self).policy() == old(self).policy(),
            final(self).wf(),
    {
        let dest = match bimap_get_by_left(&self.materializing, partial) {
            Some(dest) => dest,
            None => {
                return Err(ProjectionError::MappingInvariant);
            },
        };
        let ghost before = self@;
        bimap_remove_by_left(&mut self.materializing, partial);
        proof {
            let between = self@;
            assert(has_right(before.materializing, dest@));
            assert forall|d: Seq<u8>| has_right(between.materializing, d) implies has_right(
                before.materializing,
                d,
            ) && d != dest@ by {
                let s = left_of(between.materializing, d);
                assert(before.materializing.contains_key(s) && before.materializing[s] == d);
            }
        }
        if !succeeded {
            return Err(ProjectionError::Transformation);
        }
        bimap_insert(&mut self.projection, copy(partial), copy(&dest));
        proof {
            lemma_with_pair(before.mapped, partial@, dest@);
            let after = self@;
            assert(after.mapped == before.mapped.insert(partial@, dest@));
            assert forall|d: Seq<u8>|
                !(#[trigger] has_right(after.mapped, d) && #[trigger] has_right(
                    after.materializing,
                    d,
                )) by {
                if has_right(after.mapped, d) && has_right(after.materializing, d) {
                    let s = left_of(after.mapped, d);
                    if s != partial@ {
                        assert(before.mapped.contains_key(s) && before.mapped[s] == d);
                        assert(has_right(before.mapped, d));
                    }
                }
            }
        }
        Ok(dest)
    }

    /// What a caller that was told to wait finds when it looks again.
    pub fn outcome(&self, partial: &Vec<u8>) -> (r: Option<Result<Vec<u8>, ProjectionError>>)
        ensures
            match r {
                Some(found) => Some(answer(found)),
                None => None,
            } == self@.outcome(partial@),
    {
        match bimap_get_by_left(&self.projection, partial) {
            Some(dest) => Some(Ok(dest)),
            None => if bimap_get_by_left(&self.materializing, partial).is_some() {
                None
            } else {
                Some(Err(ProjectionError::Transformation))
            },
        }
    }
}

/// The mapping is one-to-one: looking a mapped path up gives its cached path,
/// and looking that cached path up gives the path back.
pub proof fn law_lookups_are_inverse(known: Projections, source: Seq<u8>)
    requires
        known.wf(),
        known.lookup_by_source(source).is_some(),
    ensures
        known.lookup_by_cache(known.lookup_by_source(source).unwrap()) == Some(source),
{
    lemma_left_of(known.mapped, source);
}

/// The other way round: looking a cached path up gives the path it stands
/// for, and looking that path up gives the cached path back.
pub proof fn law_lookups_are_inverse_back(known: Projections, cache: Seq<u8>)
    requires
        known.wf(),
        known.lookup_by_cache(cache).is_some(),
    ensures
        known.lookup_by_source(known.lookup_by_cache(cache).unwrap()) == Some(cache),
{
}

/// Requests and reports leave what is known consistent.
pub proof fn law_steps_keep_consistency(
    known: Projections,
    source: Seq<u8>,
    dest: Seq<u8>,
    succeeded: bool,
)
    requires
        known.wf(),
    ensures
        known.after_request(source, dest).wf(),
        known.after_completion(source, succeeded).wf(),
{
    let requested = known.after_request(source, dest);
    if known.request(source, dest) is Start {
        lemma_with_pair(known.materializing, source, dest);
        assert forall|d: Seq<u8>|
            !(#[trigger] has_right(requested.mapped, d) && #[trigger] has_right(
                requested.materializing,
                d,
            )) by {
            if has_right(requested.mapped, d) && has_right(requested.materializing, d) {
                let s = left_of(requested.materializing, d);
                if s != source {
                    assert(known.materializing.contains_key(s) && known.materializing[s] == d);
                    assert(has_right(known.materializing, d));
                }
            }
        }
    }
    let completed = known.after_completion(source, succeeded);
    if known.materializing.contains_key(source) {
        let cache = known.materializing[source];
        assert(has_right(known.materializing, cache));
        assert forall|d: Seq<u8>| has_right(completed.materializing, d) implies has_right(
            known.materializing,
            d,
        ) && d != cache by {
            let s = left_of(completed.materializing, d);
            assert(known.materializing.contains_key(s) && known.materializing[s] == d);
        }
        if succeeded {
            lemma_with_pair(known.mapped, source, cache);
            assert forall|d: Seq<u8>|
                !(#[trigger] has_right(completed.mapped, d) && #[trigger] has_right(
                    completed.materializing,
                    d,
                )) by {
                if has_right(completed.mapped, d) && has_right(completed.materializing, d) {
                    let s = left_of(completed.mapped, d);
                    if s != source {
                        assert(known.mapped.contains_key(s) && known.mapped[s] == d);
                        assert(has_right(known.mapped, d));
                    }
                }
            }
        }
    }
}

/// Once a path is mapped it stays mapped to the same cached path, whatever is
/// requested or reported afterwards, and every request for it is answered with
/// that cached path without anything being run.
pub proof fn law_mapped_is_final(
    known: Projections,
    source: Seq<u8>,
    other: Seq<u8>,
    dest: Seq<u8>,
    succeeded: bool,
)
    requires
        known.wf(),
        known.mapped.contains_key(source),
    ensures
        known.request(source, dest) == Step::Ready(known.mapped[source]),
        known.after_request(source, dest) == known,
        known.after_request(other, dest).lookup_by_source(source) == known.lookup_by_source(source),
        known.after_completion(other, succeeded).lookup_by_source(source) == known.lookup_by_source(
            source,
        ),
{
}

/// While a path is being materialized, requests for it start nothing and
/// change nothing.
pub proof fn lemma_waiting_starts_nothing(
    known: Projections,
    source: Seq<u8>,
    dest: Seq<u8>,
    count: nat,
)
    requires
        known.materializing.contains_key(source) || known.mapped.contains_key(source),
    ensures
        known.starts(source, dest, count) == 0,
        known.after_requests(source, dest, count) == known,
    decreases count,
{
    if count > 0 {
        lemma_waiting_starts_nothing(known, source, dest, (count - 1) as nat);
    }
}

/// However many requests for an unmapped path arrive one after the other,
/// exactly one of them is told to run the transformation, and when that has
/// succeeded exactly one pair has been added to the mapping.
pub proof fn law_one_transformation(known: Projections, source: Seq<u8>, dest: Seq<u8>, count: nat)
    requires
        known.wf(),
        known.request(source, dest) is Start,
        count >= 1,
    ensures
        known.starts(source, dest, count) == 1,
        known.after_requests(source, dest, count) == known.after_request(source, dest),
        known.after_requests(source, dest, count).after_completion(source, true) == (Projections {
            mapped: known.mapped.insert(source, dest),
            materializing: known.materializing,
        }),
        known.after_requests(source, dest, count).after_completion(source, true).request(
            source,
            dest,
        ) == Step::Ready(dest),
{
    let requested = known.after_request(source, dest);
    lemma_waiting_starts_nothing(requested, source, dest, (count - 1) as nat);
    assert(requested.materializing.remove(source) == known.materializing);
}

/// A transformation that fails leaves everything as it was before it was
/// asked for: the path is unmapped again and may be asked for anew.
pub proof fn law_failure_is_undone(known: Projections, source: Seq<u8>, dest: Seq<u8>)
    requires
        known.wf(),
        known.request(source, dest) is Start,
    ensures
        known.after_request(source, dest).after_completion(source, false) == known,
        known.after_request(source, dest).completion(source, false) == Err::<
            Seq<u8>,
            ProjectionError,
        >(ProjectionError::Transformation),
{
    assert(known.materializing.insert(source, dest).remove(source) == known.materializing);
}

} // verus!
