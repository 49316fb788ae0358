//! The index's field mapping and analyzer configuration.
//!
//! Every filterable field is declared as an unanalyzed exact-match type;
//! the two free-text fields carry a custom indexing analyzer (whitespace
//! tokenizer, lower-casing, word-delimiter with originals preserved, and
//! an n-gram filter) and a separate search-time analyzer that omits the
//! n-gram expansion.  Resetting an index is destructive: it drops the
//! index and installs this schema on a fresh, single-shard one.

use vstd::prelude::*;

use crate::text::NGRAM_MAX;
use crate::text::NGRAM_MIN;

verus! {

/// The exact-match type a field is stored as.
#[derive(Clone, Copy, Debug, PartialEq, Eq, Structural)]
pub enum FieldKind {
    Integer,
    Str,
    Boolean,
    Date,
}

/// Every field of the entity document, in schema order.
#[derive(Clone, Copy, Debug, PartialEq, Eq, Structural)]
pub enum SchemaField {
    Id,
    WorkRoles,
    WorkExperience,
    WorkLocations,
    WorkAuthorization,
    Skills,
    Summary,
    CompanyIds,
    Accepted,
    BatchStartsAt,
    BatchEndsAt,
    AddedToBatchAt,
    Weight,
    BlockedCompanies,
}

/// The two custom analyzers the schema installs.
#[derive(Clone, Copy, Debug, PartialEq, Eq, Structural)]
pub enum AnalyzerName {
    /// Index-time: word-delimited tokens expanded into n-grams.
    Trigrams,
    /// Search-time: word-delimited whole tokens, no n-grams.
    Words,
}

/// The custom token filters the analyzers refer to.
#[derive(Clone, Copy, Debug, PartialEq, Eq, Structural)]
pub enum TokenFilterName {
    Lowercase,
    WordsFilter,
    TrigramsFilter,
}

#[derive(Clone, Copy, Debug, PartialEq, Eq, Structural)]
pub enum Tokenizer {
    Whitespace,
}

/// A date field's explicit storage format.
#[derive(Clone, Copy, Debug, PartialEq, Eq, Structural)]
pub enum DateFormat {
    DateOptionalTime,
}

/// How a field is indexed: verbatim, or through analyzers.
#[derive(Clone, Copy, Debug, PartialEq, Eq, Structural)]
pub enum FieldIndexing {
    NotAnalyzed,
    Analyzed { index_analyzer: AnalyzerName, search_analyzer: AnalyzerName },
}

/// The declaration of one document field.
#[derive(Clone, Copy, Debug, PartialEq, Eq, Structural)]
pub struct FieldMapping {
    pub field: SchemaField,
    pub kind: FieldKind,
    pub format: Option<DateFormat>,
    pub indexing: FieldIndexing,
}

/// Definition of one custom token filter.
#[derive(Clone, Copy, Debug, PartialEq, Eq, Structural)]
pub enum TokenFilterDef {
    NGram { min_gram: usize, max_gram: usize },
    WordDelimiter { preserve_original: bool },
}

/// A named custom token filter.
#[derive(Clone, Copy, Debug, PartialEq, Eq, Structural)]
pub struct TokenFilter {
    pub name: TokenFilterName,
    pub def: TokenFilterDef,
}

/// A custom analyzer: a tokenizer followed by token filters, in order.
pub struct AnalyzerDef {
    pub name: AnalyzerName,
    pub tokenizer: Tokenizer,
    pub filters: Vec<TokenFilterName>,
}

/// Index-wide settings: shard count and the custom analysis chain.
pub struct IndexSettings {
    pub number_of_shards: u32,
    pub filters: Vec<TokenFilter>,
    pub analyzers: Vec<AnalyzerDef>,
}

/// The whole schema one reset installs.
pub struct IndexSchema {
    pub fields: Vec<FieldMapping>,
    pub settings: IndexSettings,
}

/// The field declarations of the entity document, in order.
pub open spec fn spec_talent_fields() -> Seq<FieldMapping> {
    seq![
        FieldMapping {
            field: SchemaField::Id,
            kind: FieldKind::Integer,
            format: Option::None,
            indexing: FieldIndexing::NotAnalyzed,
        },
        FieldMapping {
            field: SchemaField::WorkRoles,
            kind: FieldKind::Str,
            format: Option::None,
            indexing: FieldIndexing::NotAnalyzed,
        },
        FieldMapping {
            field: SchemaField::WorkExperience,
            kind: FieldKind::Str,
            format: Option::None,
            indexing: FieldIndexing::NotAnalyzed,
        },
        FieldMapping {
            field: SchemaField::WorkLocations,
            kind: FieldKind::Str,
            format: Option::None,
            indexing: FieldIndexing::NotAnalyzed,
        },
        FieldMapping {
            field: SchemaField::WorkAuthorization,
            kind: FieldKind::Str,
            format: Option::None,
            indexing: FieldIndexing::NotAnalyzed,
        },
        FieldMapping {
            field: SchemaField::Skills,
            kind: FieldKind::Str,
            format: Option::None,
            indexing: FieldIndexing::Analyzed {
                index_analyzer: AnalyzerName::Trigrams,
                search_analyzer: AnalyzerName::Words,
            },
        },
        FieldMapping {
            field: SchemaField::Summary,
            kind: FieldKind::Str,
            format: Option::None,
            indexing: FieldIndexing::Analyzed {
                index_analyzer: AnalyzerName::Trigrams,
                search_analyzer: AnalyzerName::Words,
            },
        },
        FieldMapping {
            field: SchemaField::CompanyIds,
            kind: FieldKind::Integer,
            format: Option::None,
            indexing: FieldIndexing::NotAnalyzed,
        },
        FieldMapping {
            field: SchemaField::Accepted,
            kind: FieldKind::Boolean,
            format: Option::None,
            indexing: FieldIndexing::NotAnalyzed,
        },
        FieldMapping {
            field: SchemaField::BatchStartsAt,
            kind: FieldKind::Date,
            format: Option::Some(DateFormat::DateOptionalTime),
            indexing: FieldIndexing::NotAnalyzed,
        },
        FieldMapping {
            field: SchemaField::BatchEndsAt,
            kind: FieldKind::Date,
            format: Option::Some(DateFormat::DateOptionalTime),
            indexing: FieldIndexing::NotAnalyzed,
        },
        FieldMapping {
            field: SchemaField::AddedToBatchAt,
            kind: FieldKind::Date,
            format: Option::Some(DateFormat::DateOptionalTime),
            indexing: FieldIndexing::NotAnalyzed,
        },
        FieldMapping {
            field: SchemaField::Weight,
            kind: FieldKind::Integer,
            format: Option::None,
            indexing: FieldIndexing::NotAnalyzed,
        },
        FieldMapping {
            field: SchemaField::BlockedCompanies,
            kind: FieldKind::Integer,
            format: Option::None,
            indexing: FieldIndexing::NotAnalyzed,
        },
    ]
}

/// The two custom token filters, in order.
pub open spec fn spec_talent_filters() -> Seq<TokenFilter> {
    seq![
        TokenFilter {
            name: TokenFilterName::TrigramsFilter,
            def: TokenFilterDef::NGram { min_gram: NGRAM_MIN, max_gram: NGRAM_MAX },
        },
        TokenFilter {
            name: TokenFilterName::WordsFilter,
            def: TokenFilterDef::WordDelimiter { preserve_original: true },
        },
    ]
}

/// The schema a reset installs: the field mapping above, one shard,
/// the two filters, and the two analyzers over them.
pub open spec fn is_talent_schema(s: IndexSchema) -> bool {
    &&& s.fields@ == spec_talent_fields()
    &&& s.settings.number_of_shards == 1
    &&& s.settings.filters@ == spec_talent_filters()
    &&& s.settings.analyzers@.len() == 2
    &&& s.settings.analyzers@[0].name == AnalyzerName::Trigrams
    &&& s.settings.analyzers@[0].tokenizer == Tokenizer::Whitespace
    &&& s.settings.analyzers@[0].filters@ == seq![
        TokenFilterName::Lowercase,
        TokenFilterName::WordsFilter,
        TokenFilterName::TrigramsFilter,
    ]
    &&& s.settings.analyzers@[1].name == AnalyzerName::Words
    &&& s.settings.analyzers@[1].tokenizer == Tokenizer::Whitespace
    &&& s.settings.analyzers@[1].filters@ == seq![
        TokenFilterName::Lowercase,
        TokenFilterName::WordsFilter,
    ]
}

/// Build the entity document schema.
pub fn talent_schema() -> (s: IndexSchema)
    ensures
        is_talent_schema(s),
{
    let mut fields: Vec<FieldMapping> = Vec::new();
    fields.push(
        FieldMapping {
            field: SchemaField::Id,
            kind: FieldKind::Integer,
            format: Option::None,
            indexing: FieldIndexing::NotAnalyzed,
        },
    );
    fields.push(
        FieldMapping {
            field: SchemaField::WorkRoles,
            kind: FieldKind::Str,
            format: Option::None,
            indexing: FieldIndexing::NotAnalyzed,
        },
    );
    fields.push(
        FieldMapping {
            field: SchemaField::WorkExperience,
            kind: FieldKind::Str,
            format: Option::None,
            indexing: FieldIndexing::NotAnalyzed,
        },
    );
    fields.push(
        FieldMapping {
            field: SchemaField::WorkLocations,
            kind: FieldKind::Str,
            format: Option::None,
            indexing: FieldIndexing::NotAnalyzed,
        },
    );
    fields.push(
        FieldMapping {
            field: SchemaField::WorkAuthorization,
            kind: FieldKind::Str,
            format: Option::None,
            indexing: FieldIndexing::NotAnalyzed,
        },
    );
    fields.push(
        FieldMapping {
            field: SchemaField::Skills,
            kind: FieldKind::Str,
            format: Option::None,
            indexing: FieldIndexing::Analyzed {
                index_analyzer: AnalyzerName::Trigrams,
                search_analyzer: AnalyzerName::Words,
            },
        },
    );
    fields.push(
        FieldMapping {
            field: SchemaField::Summary,
            kind: FieldKind::Str,
            format: Option::None,
            indexing: FieldIndexing::Analyzed {
                index_analyzer: AnalyzerName::Trigrams,
                search_analyzer: AnalyzerName::Words,
            },
        },
    );
    fields.push(
        FieldMapping {
            field: SchemaField::CompanyIds,
            kind: FieldKind::Integer,
            format: Option::None,
            indexing: FieldIndexing::NotAnalyzed,
        },
    );
    fields.push(
        FieldMapping {
            field: SchemaField::Accepted,
            kind: FieldKind::Boolean,
            format: Option::None,
            indexing: FieldIndexing::NotAnalyzed,
        },
    );
    fields.push(
        FieldMapping {
            field: SchemaField::BatchStartsAt,
            kind: FieldKind::Date,
            format: Option::Some(DateFormat::DateOptionalTime),
            indexing: FieldIndexing::NotAnalyzed,
        },
    );
    fields.push(
        FieldMapping {
            field: SchemaField::BatchEndsAt,
            kind: FieldKind::Date,
            format: Option::Some(DateFormat::DateOptionalTime),
            indexing: FieldIndexing::NotAnalyzed,
        },
    );
    fields.push(
        FieldMapping {
            field: SchemaField::AddedToBatchAt,
            kind: FieldKind::Date,
            format: Option::Some(DateFormat::DateOptionalTime),
            indexing: FieldIndexing::NotAnalyzed,
        },
    );
    fields.push(
        FieldMapping {
            field: SchemaField::Weight,
            kind: FieldKind::Integer,
            format: Option::None,
            indexing: FieldIndexing::NotAnalyzed,
        },
    );
    fields.push(
        FieldMapping {
            field: SchemaField::BlockedCompanies,
            kind: FieldKind::Integer,
            format: Option::None,
            indexing: FieldIndexing::NotAnalyzed,
        },
    );
    proof {
        assert(fields@ =~= spec_talent_fields());
    }
    let mut filters: Vec<TokenFilter> = Vec::new();
    filters.push(
        TokenFilter {
            name: TokenFilterName::TrigramsFilter,
            def: TokenFilterDef::NGram { min_gram: NGRAM_MIN, max_gram: NGRAM_MAX },
        },
    );
    filters.push(
        TokenFilter {
            name: TokenFilterName::WordsFilter,
            def: TokenFilterDef::WordDelimiter { preserve_original: true },
        },
    );
    proof {
        assert(filters@ =~= spec_talent_filters());
    }
    let mut index_filters: Vec<TokenFilterName> = Vec::new();
    index_filters.push(TokenFilterName::Lowercase);
    index_filters.push(TokenFilterName::WordsFilter);
    index_filters.push(TokenFilterName::TrigramsFilter);
    proof {
        assert(index_filters@ =~= seq![
            TokenFilterName::Lowercase,
            TokenFilterName::WordsFilter,
            TokenFilterName::TrigramsFilter,
        ]);
    }
    let mut search_filters: Vec<TokenFilterName> = Vec::new();
    search_filters.push(TokenFilterName::Lowercase);
    search_filters.push(TokenFilterName::WordsFilter);
    proof {
        assert(search_filters@ =~= seq![
            TokenFilterName::Lowercase,
            TokenFilterName::WordsFilter,
        ]);
    }
    let mut analyzers: Vec<AnalyzerDef> = Vec::new();
    analyzers.push(
        AnalyzerDef {
            name: AnalyzerName::Trigrams,
            tokenizer: Tokenizer::Whitespace,
            filters: index_filters,
        },
    );
    analyzers.push(
        AnalyzerDef {
            name: AnalyzerName::Words,
            tokenizer: Tokenizer::Whitespace,
            filters: search_filters,
        },
    );
    IndexSchema {
        fields,
        settings: IndexSettings { number_of_shards: 1, filters, analyzers },
    }
}

} // verus!
