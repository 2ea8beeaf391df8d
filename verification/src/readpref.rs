//! Read preferences and their traced representation.
//!
//! Server selection criteria are logged in a fixed textual shape; the
//! representation spells the mode and only the options actually set, in the
//! order: tag sets, max staleness, hedge.

use vstd::prelude::*;

use crate::strutil::{spec_dec_chars, u64_to_string};

verus! {

/// Hedged-read configuration.
#[derive(Clone, Copy, Debug, PartialEq, Eq, Structural)]
pub struct HedgedReadOptions {
    pub enabled: bool,
}

impl HedgedReadOptions {
    /// Options with hedging switched on or off.
    pub fn with_enabled(enabled: bool) -> (r: HedgedReadOptions)
        ensures
            r.enabled == enabled,
    {
        HedgedReadOptions { enabled }
    }
}

/// Options of a non-primary read preference.
#[derive(Clone, Debug, PartialEq)]
pub struct ReadPreferenceOptions {
    /// Tag sets, tried in order; each is a list of tag name and value pairs.
    pub tag_sets: Option<Vec<Vec<(String, String)>>>,
    /// Upper bound on replication lag, in milliseconds.
    pub max_staleness: Option<u64>,
    /// Hedged-read behaviour.
    pub hedge: Option<HedgedReadOptions>,
}

/// Builder for [`ReadPreferenceOptions`].
#[derive(Debug)]
pub struct ReadPreferenceOptionsBuilder {
    pub tag_sets: Option<Vec<Vec<(String, String)>>>,
    pub max_staleness: Option<u64>,
    pub hedge: Option<HedgedReadOptions>,
}

impl ReadPreferenceOptionsBuilder {
    /// Sets the tag sets.
    pub fn tag_sets(self, tag_sets: Vec<Vec<(String, String)>>) -> (r:
        ReadPreferenceOptionsBuilder)
        ensures
            r.tag_sets == Some(tag_sets),
            r.max_staleness == self.max_staleness,
            r.hedge == self.hedge,
    {
        ReadPreferenceOptionsBuilder {
            tag_sets: Some(tag_sets),
            max_staleness: self.max_staleness,
            hedge: self.hedge,
        }
    }

    /// Sets the max staleness, in milliseconds.
    pub fn max_staleness(self, millis: u64) -> (r: ReadPreferenceOptionsBuilder)
        ensures
            r.max_staleness == Some(millis),
            r.tag_sets == self.tag_sets,
            r.hedge == self.hedge,
    {
        ReadPreferenceOptionsBuilder {
            tag_sets: self.tag_sets,
            max_staleness: Some(millis),
            hedge: self.hedge,
        }
    }

    /// Sets the hedged-read options.
    pub fn hedge(self, hedge: HedgedReadOptions) -> (r: ReadPreferenceOptionsBuilder)
        ensures
            r.hedge == Some(hedge),
            r.tag_sets == self.tag_sets,
            r.max_staleness == self.max_staleness,
    {
        ReadPreferenceOptionsBuilder {
            tag_sets: self.tag_sets,
            max_staleness: self.max_staleness,
            hedge: Some(hedge),
        }
    }

    /// Finishes the options.
    pub fn build(self) -> (r: ReadPreferenceOptions)
        ensures
            r.tag_sets == self.tag_sets,
            r.max_staleness == self.max_staleness,
            r.hedge == self.hedge,
    {
        ReadPreferenceOptions {
            tag_sets: self.tag_sets,
            max_staleness: self.max_staleness,
            hedge: self.hedge,
        }
    }
}

impl ReadPreferenceOptions {
    /// A builder with nothing set.
    pub fn builder() -> (r: ReadPreferenceOptionsBuilder)
        ensures
            r.tag_sets is None,
            r.max_staleness is None,
            r.hedge is None,
    {
        ReadPreferenceOptionsBuilder { tag_sets: None, max_staleness: None, hedge: None }
    }
}

/// Where reads are directed.
#[derive(Clone, Debug, PartialEq)]
pub enum ReadPreference {
    Primary,
    PrimaryPreferred { options: ReadPreferenceOptions },
    Secondary { options: ReadPreferenceOptions },
    SecondaryPreferred { options: ReadPreferenceOptions },
    Nearest { options: ReadPreferenceOptions },
}

/// How a server is picked: a read preference, or an opaque caller-supplied
/// predicate over server descriptions.
#[derive(Clone, Debug)]
pub enum SelectionCriteria {
    ReadPreference(ReadPreference),
    Predicate,
}

/// Name of a read-preference mode.
pub open spec fn spec_mode_name(rp: ReadPreference) -> Seq<char> {
    match rp {
        ReadPreference::Primary => "Primary"@,
        ReadPreference::PrimaryPreferred { .. } => "PrimaryPreferred"@,
        ReadPreference::Secondary { .. } => "Secondary"@,
        ReadPreference::SecondaryPreferred { .. } => "SecondaryPreferred"@,
        ReadPreference::Nearest { .. } => "Nearest"@,
    }
}

/// The options of a read preference; the primary mode carries none.
pub open spec fn spec_mode_options(rp: ReadPreference) -> Option<ReadPreferenceOptions> {
    match rp {
        ReadPreference::Primary => None,
        ReadPreference::PrimaryPreferred { options } => Some(options),
        ReadPreference::Secondary { options } => Some(options),
        ReadPreference::SecondaryPreferred { options } => Some(options),
        ReadPreference::Nearest { options } => Some(options),
    }
}

/// Representation of one tag pair: `"name": "value"`.
pub open spec fn spec_tag_repr(p: (Seq<char>, Seq<char>)) -> Seq<char> {
    "\""@ + p.0 + "\": \""@ + p.1 + "\""@
}

/// Tag pairs joined with commas.
pub open spec fn spec_tags_repr(ps: Seq<(Seq<char>, Seq<char>)>) -> Seq<char>
    decreases ps.len(),
{
    if ps.len() == 0 {
        Seq::empty()
    } else if ps.len() == 1 {
        spec_tag_repr(ps[0])
    } else {
        spec_tags_repr(ps.drop_last()) + ", "@ + spec_tag_repr(ps.last())
    }
}

/// One tag set: its pairs inside braces.
pub open spec fn spec_tag_set_repr(ts: Seq<(Seq<char>, Seq<char>)>) -> Seq<char> {
    "{"@ + spec_tags_repr(ts) + "}"@
}

/// Tag sets joined with commas.
pub open spec fn spec_tag_sets_inner(sets: Seq<Seq<(Seq<char>, Seq<char>)>>) -> Seq<char>
    decreases sets.len(),
{
    if sets.len() == 0 {
        Seq::empty()
    } else if sets.len() == 1 {
        spec_tag_set_repr(sets[0])
    } else {
        spec_tag_sets_inner(sets.drop_last()) + ", "@ + spec_tag_set_repr(sets.last())
    }
}

/// The tag sets inside brackets.
pub open spec fn spec_tag_sets_repr(sets: Seq<Seq<(Seq<char>, Seq<char>)>>) -> Seq<char> {
    "["@ + spec_tag_sets_inner(sets) + "]"@
}

/// Mathematical image of one tag set.
pub open spec fn spec_tag_set_view(ts: Vec<(String, String)>) -> Seq<(Seq<char>, Seq<char>)> {
    ts@.map_values(|p: (String, String)| (p.0@, p.1@))
}

/// What the set options contribute, in order: tag sets, max staleness, hedge.
pub open spec fn spec_options_suffix(o: ReadPreferenceOptions) -> Seq<char> {
    (match o.tag_sets {
        Some(sets) => ", Tag Sets: "@ + spec_tag_sets_repr(
            sets@.map_values(|ts: Vec<(String, String)>| spec_tag_set_view(ts)),
        ),
        None => Seq::empty(),
    }) + (match o.max_staleness {
        Some(ms) => ", Max Staleness: "@ + spec_dec_chars(ms as nat) + "ms"@,
        None => Seq::empty(),
    }) + (match o.hedge {
        Some(h) => ", Hedge: "@ + (if h.enabled {
            "true"@
        } else {
            "false"@
        }),
        None => Seq::empty(),
    })
}

/// The whole representation of a read preference.
pub open spec fn spec_read_preference_repr(rp: ReadPreference) -> Seq<char> {
    "ReadPreference { Mode: "@ + spec_mode_name(rp) + (match spec_mode_options(rp) {
        Some(o) => spec_options_suffix(o),
        None => Seq::empty(),
    }) + " }"@
}

/// The representation of a selection criteria value.
pub open spec fn spec_selection_criteria_repr(sc: SelectionCriteria) -> Seq<char> {
    match sc {
        SelectionCriteria::ReadPreference(rp) => spec_read_preference_repr(rp),
        SelectionCriteria::Predicate => "Custom predicate"@,
    }
}

fn append_tags(out: &mut String, ts: &Vec<(String, String)>)
    ensures
        final(out)@ == old(out)@ + spec_tags_repr(spec_tag_set_view(*ts)),
{
    let ghost view = spec_tag_set_view(*ts);
    let mut i: usize = 0;
    while i < ts.len()
        invariant
            view == spec_tag_set_view(*ts),
            view.len() == ts@.len(),
            0 <= i <= view.len(),
            out@ == old(out)@ + spec_tags_repr(view.take(i as int)),
        decreases view.len() - i,
    {
        proof {
            assert(view[i as int] == (ts@[i as int].0@, ts@[i as int].1@));
            assert(view.take(i + 1).drop_last() =~= view.take(i as int));
            assert(view.take(i + 1).last() == view[i as int]);
        }
        if i > 0 {
            out.append(", ");
        }
        out.append("\"");
        out.append(ts[i].0.as_str());
        out.append("\": \"");
        out.append(ts[i].1.as_str());
        out.append("\"");
        proof {
            if i == 0 {
                assert(spec_tags_repr(view.take(1)) == spec_tag_repr(view[0]));
                assert(out@ =~= old(out)@ + spec_tags_repr(view.take(1)));
            } else {
                assert(out@ =~= old(out)@ + (spec_tags_repr(view.take(i as int)) + ", "@
                    + spec_tag_repr(view[i as int])));
            }
        }
        i += 1;
    }
    proof {
        assert(view.take(view.len() as int) =~= view);
    }
}

fn append_tag_sets(out: &mut String, sets: &Vec<Vec<(String, String)>>)
    ensures
        final(out)@ == old(out)@ + spec_tag_sets_repr(
            sets@.map_values(|ts: Vec<(String, String)>| spec_tag_set_view(ts)),
        ),
{
    let ghost view = sets@.map_values(|ts: Vec<(String, String)>| spec_tag_set_view(ts));
    out.append("[");
    let mut i: usize = 0;
    while i < sets.len()
        invariant
            view == sets@.map_values(|ts: Vec<(String, String)>| spec_tag_set_view(ts)),
            view.len() == sets@.len(),
            0 <= i <= view.len(),
            out@ == old(out)@ + "["@ + spec_tag_sets_inner(view.take(i as int)),
        decreases view.len() - i,
    {
        proof {
            assert(view[i as int] == spec_tag_set_view(sets@[i as int]));
            assert(view.take(i + 1).drop_last() =~= view.take(i as int));
            assert(view.take(i + 1).last() == view[i as int]);
        }
        if i > 0 {
            out.append(", ");
        }
        out.append("{");
        append_tags(out, &sets[i]);
        out.append("}");
        proof {
            if i == 0 {
                assert(spec_tag_sets_inner(view.take(1)) == spec_tag_set_repr(view[0]));
                assert(out@ =~= old(out)@ + "["@ + spec_tag_sets_inner(view.take(1)));
            } else {
                assert(out@ =~= old(out)@ + "["@ + (spec_tag_sets_inner(view.take(i as int))
                    + ", "@ + spec_tag_set_repr(view[i as int])));
            }
        }
        i += 1;
    }
    proof {
        assert(view.take(view.len() as int) =~= view);
    }
    out.append("]");
    proof {
        assert(old(out)@ + "["@ + spec_tag_sets_inner(view) + "]"@ =~= old(out)@ + ("["@
            + spec_tag_sets_inner(view) + "]"@));
    }
}

impl SelectionCriteria {
    /// The criteria as command traces spell it.
    #[verifier::rlimit(100)]
    pub fn tracing_representation(&self) -> (r: String)
        ensures
            r@ == spec_selection_criteria_repr(*self),
    {
        let rp = match self {
            SelectionCriteria::Predicate => {
                let s: &str = "Custom predicate";
                return s.to_owned();
            },
            SelectionCriteria::ReadPreference(rp) => rp,
        };
        let mut out = String::new();
        out.append("ReadPreference { Mode: ");
        match rp {
            ReadPreference::Primary => out.append("Primary"),
            ReadPreference::PrimaryPreferred { .. } => out.append("PrimaryPreferred"),
            ReadPreference::Secondary { .. } => out.append("Secondary"),
            ReadPreference::SecondaryPreferred { .. } => out.append("SecondaryPreferred"),
            ReadPreference::Nearest { .. } => out.append("Nearest"),
        }
        let ghost with_mode = out@;
        proof {
            assert(with_mode =~= Seq::<char>::empty() + "ReadPreference { Mode: "@
                + spec_mode_name(*rp));
        }
        match rp {
            ReadPreference::Primary => {},
            ReadPreference::PrimaryPreferred { options }
            | ReadPreference::Secondary { options }
            | ReadPreference::SecondaryPreferred { options }
            | ReadPreference::Nearest { options } => {
                match &options.tag_sets {
                    Some(sets) => {
                        out.append(", Tag Sets: ");
                        append_tag_sets(&mut out, sets);
                    },
                    None => {},
                }
                let ghost with_tags = out@;
                match options.max_staleness {
                    Some(ms) => {
                        out.append(", Max Staleness: ");
                        let n = u64_to_string(ms);
                        out.append(n.as_str());
                        out.append("ms");
                    },
                    None => {},
                }
                let ghost with_staleness = out@;
                match options.hedge {
                    Some(h) => {
                        out.append(", Hedge: ");
                        out.append(
                            if h.enabled {
                                "true"
                            } else {
                                "false"
                            },
                        );
                    },
                    None => {},
                }
                proof {
                    let o = spec_mode_options(*rp).unwrap();
                    assert(with_tags =~= with_mode + (match o.tag_sets {
                        Some(sets) => ", Tag Sets: "@ + spec_tag_sets_repr(
                            sets@.map_values(
                                |ts: Vec<(String, String)>| spec_tag_set_view(ts),
                            ),
                        ),
                        None => Seq::<char>::empty(),
                    }));
                    assert(with_staleness =~= with_tags + (match o.max_staleness {
                        Some(ms) => ", Max Staleness: "@ + spec_dec_chars(ms as nat) + "ms"@,
                        None => Seq::<char>::empty(),
                    }));
                    assert(out@ =~= with_staleness + (match o.hedge {
                        Some(h) => ", Hedge: "@ + (if h.enabled {
                            "true"@
                        } else {
                            "false"@
                        }),
                        None => Seq::<char>::empty(),
                    }));
                    assert(out@ =~= with_mode + spec_options_suffix(o));
                }
            },
        }
        out.append(" }");
        proof {
            assert(out@ =~= spec_selection_criteria_repr(*self));
        }
        out
    }
}

} // verus!
