//! How a search is asked of Perplexity.
use vstd::prelude::*;

verus! {

/// Whether a search may use the web.
#[derive(Clone, Copy, Debug, PartialEq, Eq, Structural)]
pub enum SearchMode {
    Web,
    Writing,
    Strict,
}

/// The request settings that a search mode stands for.
pub struct SearchProfile {
    pub search_focus: &'static str,
    pub source: &'static str,
    pub sources: &'static [&'static str],
    pub skip_search_enabled: bool,
    pub always_search_override: bool,
    pub expect_search_results: bool,
    pub supported_block_use_cases: &'static [&'static str],
    pub supported_features: &'static [&'static str],
}

/// One search: the query, Perplexity's mode and model, privacy, the search
/// mode, and the conversation it continues, by its id.
pub struct SearchParams<'a> {
    pub query: &'a str,
    pub mode: &'a str,
    pub model: &'a str,
    pub incognito: bool,
    pub search_mode: &'a SearchMode,
    pub context_uuid: Option<String>,
}

/// A search profile, as values.
pub struct ProfileView {
    pub search_focus: Seq<char>,
    pub source: Seq<char>,
    pub sources: Seq<Seq<char>>,
    pub skip_search_enabled: bool,
    pub always_search_override: bool,
    pub expect_search_results: bool,
    pub supported_block_use_cases: Seq<Seq<char>>,
    pub supported_features: Seq<Seq<char>>,
}

impl View for SearchProfile {
    type V = ProfileView;

    open spec fn view(&self) -> ProfileView {
        ProfileView {
            search_focus: self.search_focus@,
            source: self.source@,
            sources: self.sources@.map_values(|s: &str| s@),
            skip_search_enabled: self.skip_search_enabled,
            always_search_override: self.always_search_override,
            expect_search_results: self.expect_search_results,
            supported_block_use_cases: self.supported_block_use_cases@.map_values(|s: &str| s@),
            supported_features: self.supported_features@.map_values(|s: &str| s@),
        }
    }
}

impl SearchMode {
    /// The settings of the mode: the web mode searches the internet and
    /// expects results; the others write without searching.
    pub open spec fn profile_spec(self) -> ProfileView {
        match self {
            SearchMode::Web => ProfileView {
                search_focus: "internet"@,
                source: "web"@,
                sources: seq!["web"@],
                skip_search_enabled: false,
                always_search_override: true,
                expect_search_results: true,
                supported_block_use_cases: Seq::empty(),
                supported_features: Seq::empty(),
            },
            _ => ProfileView {
                search_focus: "writing"@,
                source: "none"@,
                sources: seq!["none"@],
                skip_search_enabled: true,
                always_search_override: false,
                expect_search_results: false,
                supported_block_use_cases: Seq::empty(),
                supported_features: Seq::empty(),
            },
        }
    }

    /// The settings of the mode.
    pub fn profile(&self) -> (p: SearchProfile)
        ensures
            p@ == self.profile_spec(),
    {
        let p = match self {
            SearchMode::Web => SearchProfile {
                search_focus: "internet",
                source: "web",
                sources: &["web"],
                skip_search_enabled: false,
                always_search_override: true,
                expect_search_results: true,
                supported_block_use_cases: &[],
                supported_features: &[],
            },
            SearchMode::Writing => SearchProfile {
                search_focus: "writing",
                source: "none",
                sources: &["none"],
                skip_search_enabled: true,
                always_search_override: false,
                expect_search_results: false,
                supported_block_use_cases: &[],
                supported_features: &[],
            },
            SearchMode::Strict => SearchProfile {
                search_focus: "writing",
                source: "none",
                sources: &["none"],
                skip_search_enabled: true,
                always_search_override: false,
                expect_search_results: false,
                supported_block_use_cases: &[],
                supported_features: &[],
            },
        };
        proof {
            assert(p.sources@.len() == 1);
            assert(p@.sources =~= self.profile_spec().sources);
            assert(p@.supported_block_use_cases =~= Seq::<Seq<char>>::empty());
            assert(p@.supported_features =~= Seq::<Seq<char>>::empty());
        }
        p
    }
}

} // verus!
