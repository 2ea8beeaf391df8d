use csfle::readpref::{
    HedgedReadOptions, ReadPreference, ReadPreferenceOptions, SelectionCriteria,
};

#[test]
fn selection_criteria_tracing_representation() {
    assert_eq!(
        SelectionCriteria::ReadPreference(ReadPreference::Primary).tracing_representation(),
        "ReadPreference { Mode: Primary }"
    );

    // non-primary read preferences with empty options - options should be omitted from
    // representation.
    let empty_opts = ReadPreferenceOptions::builder().build();

    assert_eq!(
        SelectionCriteria::ReadPreference(ReadPreference::PrimaryPreferred {
            options: empty_opts.clone()
        })
        .tracing_representation(),
        "ReadPreference { Mode: PrimaryPreferred }"
    );
    assert_eq!(
        SelectionCriteria::ReadPreference(ReadPreference::Secondary {
            options: empty_opts.clone()
        })
        .tracing_representation(),
        "ReadPreference { Mode: Secondary }"
    );
    assert_eq!(
        SelectionCriteria::ReadPreference(ReadPreference::SecondaryPreferred {
            options: empty_opts.clone()
        })
        .tracing_representation(),
        "ReadPreference { Mode: SecondaryPreferred }"
    );
    assert_eq!(
        SelectionCriteria::ReadPreference(ReadPreference::Nearest {
            options: empty_opts
        })
        .tracing_representation(),
        "ReadPreference { Mode: Nearest }"
    );

    let mut tag_set: Vec<(String, String)> = Vec::new();
    tag_set.push(("a".to_string(), "b".to_string()));
    let opts_with_tag_sets = ReadPreferenceOptions::builder()
        .tag_sets(vec![tag_set.clone()])
        .build();

    assert_eq!(
        SelectionCriteria::ReadPreference(ReadPreference::PrimaryPreferred {
            options: opts_with_tag_sets
        })
        .tracing_representation(),
        "ReadPreference { Mode: PrimaryPreferred, Tag Sets: [{\"a\": \"b\"}] }"
    );

    let opts_with_max_staleness = ReadPreferenceOptions::builder().max_staleness(200).build();
    assert_eq!(
        SelectionCriteria::ReadPreference(ReadPreference::PrimaryPreferred {
            options: opts_with_max_staleness
        })
        .tracing_representation(),
        "ReadPreference { Mode: PrimaryPreferred, Max Staleness: 200ms }"
    );

    let opts_with_hedge = ReadPreferenceOptions::builder()
        .hedge(HedgedReadOptions::with_enabled(true))
        .build();
    assert_eq!(
        SelectionCriteria::ReadPreference(ReadPreference::PrimaryPreferred {
            options: opts_with_hedge
        })
        .tracing_representation(),
        "ReadPreference { Mode: PrimaryPreferred, Hedge: true }"
    );

    let opts_with_multiple_options = ReadPreferenceOptions::builder()
        .max_staleness(200)
        .tag_sets(vec![tag_set])
        .build();
    assert_eq!(
        SelectionCriteria::ReadPreference(ReadPreference::PrimaryPreferred {
            options: opts_with_multiple_options
        })
        .tracing_representation(),
        "ReadPreference { Mode: PrimaryPreferred, Tag Sets: [{\"a\": \"b\"}], Max Staleness: \
         200ms }"
    );

    assert_eq!(
        SelectionCriteria::Predicate.tracing_representation(),
        "Custom predicate"
    );
}

#[test]
fn representation_of_multiple_tag_sets_and_pairs() {
    let mut first: Vec<(String, String)> = Vec::new();
    first.push(("dc".to_string(), "east".to_string()));
    first.push(("rack".to_string(), "r1".to_string()));
    let second: Vec<(String, String)> = Vec::new();
    let opts = ReadPreferenceOptions::builder()
        .tag_sets(vec![first, second])
        .build();
    assert_eq!(
        SelectionCriteria::ReadPreference(ReadPreference::Nearest { options: opts })
            .tracing_representation(),
        "ReadPreference { Mode: Nearest, Tag Sets: [{\"dc\": \"east\", \"rack\": \"r1\"}, {}] }"
    );
}

#[test]
fn representation_of_disabled_hedge() {
    let opts = ReadPreferenceOptions::builder()
        .hedge(HedgedReadOptions::with_enabled(false))
        .build();
    assert_eq!(
        SelectionCriteria::ReadPreference(ReadPreference::Secondary { options: opts })
            .tracing_representation(),
        "ReadPreference { Mode: Secondary, Hedge: false }"
    );
}
