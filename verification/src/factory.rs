//! Ready-made finders.

use vstd::prelude::*;
use crate::config::{opt_text, AppConfig};
use crate::entry::EntryView;
use crate::filters::composite::{lemma_conjunction_push, Predicate};
use crate::filters::date::{date_decision, day_end, day_start, iso_day};
use crate::filters::extension::{extension_decision, strip_dots};
use crate::filters::name::name_decision;
use crate::filters::size::size_decision;
use crate::filters::{
    and_then_result, DateFilter, ExtensionFilter, Filter, FilterError, FilterResult, NameFilter,
    RegexFilter, SizeFilter,
};
use crate::finder::{FileFinder, FinderConfig};
use crate::observer::{fresh, NullObserver, Observer, ObserverKind, SearchObserver};
use crate::filters::regex::{compile_optional, is_malformed, is_well_formed, text_of};
use crate::pattern::{regex_matches, Pattern};
use crate::registry::{registers, FilterRegistry, ObserverRegistry};
use crate::traversal::{DefaultTraversalStrategy, RegexTraversalStrategy, TraversalPolicy};

verus! {

/// Puts a finder together piece by piece.
#[derive(Debug)]
pub struct FileFinderBuilder {
    pub config: FinderConfig,
    pub traversal_strategy: TraversalPolicy,
    pub filter_registry: FilterRegistry,
    pub observer_registry: ObserverRegistry,
}

impl FileFinderBuilder {
    /// A builder for a finder that skips hidden entries, has no predicate
    /// and no observer, and works as `FinderConfig::default` says.
    pub fn new() -> (b: FileFinderBuilder)
        ensures
            b.config.num_threads >= 1,
            !b.config.follow_links,
            b.config.max_depth is None,
            b.traversal_strategy is Default,
            b.traversal_strategy->Default_0.skips_hidden(),
            b.filter_registry.names().len() == 0,
            b.filter_registry.filters().len() == 0,
            b.filter_registry.well_formed(),
            b.observer_registry.states().len() == 0,
    {
        FileFinderBuilder {
            config: FinderConfig::default(),
            traversal_strategy: TraversalPolicy::Default(DefaultTraversalStrategy::new(true)),
            filter_registry: FilterRegistry::new(),
            observer_registry: ObserverRegistry::new(),
        }
    }

    pub fn with_config(self, config: FinderConfig) -> (b: FileFinderBuilder)
        ensures
            b == (FileFinderBuilder { config, ..self }),
    {
        let mut b = self;
        b.config = config;
        b
    }

    pub fn with_traversal_strategy(self, strategy: TraversalPolicy) -> (b: FileFinderBuilder)
        ensures
            b == (FileFinderBuilder { traversal_strategy: strategy, ..self }),
    {
        let mut b = self;
        b.traversal_strategy = strategy;
        b
    }

    pub fn with_threads(self, num_threads: usize) -> (b: FileFinderBuilder)
        ensures
            b == (FileFinderBuilder {
                config: FinderConfig { num_threads, ..self.config },
                ..self
            }),
    {
        let mut b = self;
        b.config.num_threads = num_threads;
        b
    }

    pub fn with_follow_links(self, follow_links: bool) -> (b: FileFinderBuilder)
        ensures
            b == (FileFinderBuilder {
                config: FinderConfig { follow_links, ..self.config },
                ..self
            }),
    {
        let mut b = self;
        b.config.follow_links = follow_links;
        b
    }

    pub fn with_max_depth(self, max_depth: usize) -> (b: FileFinderBuilder)
        ensures
            b == (FileFinderBuilder {
                config: FinderConfig { max_depth: Some(max_depth), ..self.config },
                ..self
            }),
    {
        let mut b = self;
        b.config.max_depth = Some(max_depth);
        b
    }

    /// Registers `filter` under `name`.
    pub fn with_filter(self, name: &str, filter: Predicate) -> (b: FileFinderBuilder)
        ensures
            b.config == self.config,
            b.traversal_strategy == self.traversal_strategy,
            b.observer_registry == self.observer_registry,
            registers(self.filter_registry, b.filter_registry, name@, filter),
    {
        let mut b = self;
        b.filter_registry.register(name, filter);
        b
    }

    pub fn with_observer_registry(self, registry: ObserverRegistry) -> (b: FileFinderBuilder)
        ensures
            b == (FileFinderBuilder { observer_registry: registry, ..self }),
    {
        let mut b = self;
        b.observer_registry = registry;
        b
    }

    /// Registers `observer` behind the observers already there.
    pub fn with_observer(self, observer: Observer) -> (b: FileFinderBuilder)
        ensures
            b.config == self.config,
            b.traversal_strategy == self.traversal_strategy,
            b.filter_registry == self.filter_registry,
            b.observer_registry.states() == self.observer_registry.states().push(observer.state()),
    {
        let mut b = self;
        b.observer_registry.register(observer);
        b
    }

    pub fn build(self) -> (f: FileFinder)
        ensures
            f.config == self.config,
            f.traversal_strategy == self.traversal_strategy,
            f.filter_registry == self.filter_registry,
            f.observer_registry == self.observer_registry,
    {
        FileFinder::new(
            self.config,
            self.traversal_strategy,
            self.filter_registry,
            self.observer_registry,
        )
    }
}

/// Makes finders for the common cases.
#[derive(Debug, Clone, Copy)]
pub struct FinderFactory;

/// A finder of the simple kind: single-threaded, following links, looking
/// at hidden entries too, without an observer.
pub open spec fn is_simple(f: FileFinder) -> bool {
    &&& f.config == (FinderConfig { num_threads: 1, follow_links: true, max_depth: None })
    &&& f.traversal_strategy is Default
    &&& !f.traversal_strategy->Default_0.skips_hidden()
    &&& f.observer_registry.states().len() == 0
    &&& f.filter_registry.well_formed()
}

fn simple_builder() -> (b: FileFinderBuilder)
    ensures
        b.config == (FinderConfig { num_threads: 1, follow_links: true, max_depth: None }),
        b.traversal_strategy is Default,
        !b.traversal_strategy->Default_0.skips_hidden(),
        b.observer_registry.states().len() == 0,
        b.filter_registry.well_formed(),
        b.filter_registry.names().len() == 0,
        b.filter_registry.filters().len() == 0,
{
    FileFinderBuilder::new().with_config(
        FinderConfig { num_threads: 1, follow_links: true, max_depth: None },
    ).with_traversal_strategy(TraversalPolicy::Default(DefaultTraversalStrategy::new(false)))
}

/// Whether the registry of `f` holds the predicates for a name and an
/// extension, as far as they are asked for: the name in front where both
/// are.
pub open spec fn holds_criteria(
    f: FileFinder,
    name: Option<Seq<char>>,
    extension: Option<Seq<char>>,
) -> bool {
    let names = f.filter_registry.names();
    let filters = f.filter_registry.filters();
    &&& f.filter_registry.well_formed()
    &&& filters.len() == names.len()
    &&& names == match (name, extension) {
        (Some(_), Some(_)) => seq!["name"@, "extension"@],
        (Some(_), None) => seq!["name"@],
        (None, Some(_)) => seq!["extension"@],
        (None, None) => Seq::<Seq<char>>::empty(),
    }
    &&& name matches Some(n) ==> filters[0] is Name && filters[0]->Name_0.wanted() == n
        && !filters[0]->Name_0.ignores_case()
    &&& extension matches Some(x) ==> filters[filters.len() - 1] is Extension
        && filters[filters.len() - 1]->Extension_0.wanted() == strip_dots(x)
}

impl FinderFactory {
    /// A simple finder for a name, an extension or both; one without
    /// predicates where neither is asked for.
    pub fn create_finder_for(name: Option<&str>, extension: Option<&str>) -> (f: FileFinder)
        ensures
            is_simple(f),
            holds_criteria(
                f,
                match name {
                    Some(n) => Some(n@),
                    None => None,
                },
                match extension {
                    Some(x) => Some(x@),
                    None => None,
                },
            ),
    {
        match (name, extension) {
            (Some(n), Some(x)) => FinderFactory::create_combined_finder(n, x),
            (Some(n), None) => FinderFactory::create_name_finder(n),
            (None, Some(x)) => FinderFactory::create_extension_finder(x),
            (None, None) => {
                let f = simple_builder().build();
                assert(f.filter_registry.names() =~= Seq::<Seq<char>>::empty());
                f
            },
        }
    }

    /// A simple finder for the files with the extension `extension`.
    pub fn create_extension_finder(extension: &str) -> (f: FileFinder)
        ensures
            is_simple(f),
            f.filter_registry.names() == seq!["extension"@],
            f.filter_registry.filters().len() == 1,
            f.filter_registry.filters()[0] is Extension,
            f.filter_registry.filters()[0]->Extension_0.wanted() == strip_dots(extension@),
    {
        let b = simple_builder();
        proof {
            b.filter_registry.names().index_of_first_ensures("extension"@);
        }
        let b = b.with_filter("extension", Predicate::Extension(ExtensionFilter::new(extension)));
        assert(b.filter_registry.names() =~= seq!["extension"@]);
        b.build()
    }

    /// A simple finder for the files whose name holds `name`.
    pub fn create_name_finder(name: &str) -> (f: FileFinder)
        ensures
            is_simple(f),
            f.filter_registry.names() == seq!["name"@],
            f.filter_registry.filters().len() == 1,
            f.filter_registry.filters()[0] is Name,
            f.filter_registry.filters()[0]->Name_0.wanted() == name@,
            !f.filter_registry.filters()[0]->Name_0.ignores_case(),
    {
        let b = simple_builder();
        proof {
            b.filter_registry.names().index_of_first_ensures("name"@);
        }
        let b = b.with_filter("name", Predicate::Name(NameFilter::new(name)));
        assert(b.filter_registry.names() =~= seq!["name"@]);
        b.build()
    }

    /// A simple finder for the files whose name holds `name` and whose
    /// extension is `extension`.
    pub fn create_combined_finder(name: &str, extension: &str) -> (f: FileFinder)
        ensures
            is_simple(f),
            f.filter_registry.names() == seq!["name"@, "extension"@],
            f.filter_registry.filters().len() == 2,
            f.filter_registry.filters()[0] is Name,
            f.filter_registry.filters()[0]->Name_0.wanted() == name@,
            !f.filter_registry.filters()[0]->Name_0.ignores_case(),
            f.filter_registry.filters()[1] is Extension,
            f.filter_registry.filters()[1]->Extension_0.wanted() == strip_dots(extension@),
    {
        let b = simple_builder();
        proof {
            b.filter_registry.names().index_of_first_ensures("name"@);
        }
        let b = b.with_filter("name", Predicate::Name(NameFilter::new(name)));
        assert(b.filter_registry.names() =~= seq!["name"@]);
        proof {
            reveal_strlit("name");
            reveal_strlit("extension");
            b.filter_registry.names().index_of_first_ensures("extension"@);
            assert("name"@.len() != "extension"@.len());
        }
        let b = b.with_filter("extension", Predicate::Extension(ExtensionFilter::new(extension)));
        assert(b.filter_registry.names() =~= seq!["name"@, "extension"@]);
        b.build()
    }

    /// A finder that works as `config` says, with `traversal_strategy` as
    /// its policy and neither predicates nor observers.
    pub fn create_custom_finder(config: FinderConfig, traversal_strategy: TraversalPolicy) -> (f:
        FileFinder)
        ensures
            f.config == config,
            f.traversal_strategy == traversal_strategy,
            f.filter_registry.filters().len() == 0,
            f.observer_registry.states().len() == 0,
    {
        FileFinderBuilder::new().with_config(config).with_traversal_strategy(
            traversal_strategy,
        ).build()
    }
}

/// What the predicate for an optional extension says.
pub open spec fn extension_part(wanted: Option<Seq<char>>, e: EntryView) -> FilterResult {
    match wanted {
        Some(x) => extension_decision(strip_dots(x), e),
        None => FilterResult::Accept,
    }
}

/// What the predicate for an optional name says.
pub open spec fn name_part(wanted: Option<Seq<char>>, e: EntryView) -> FilterResult {
    match wanted {
        Some(n) => name_decision(n, false, e),
        None => FilterResult::Accept,
    }
}

/// What the predicate for an optional path expression says.
pub open spec fn pattern_part(source: Option<Seq<char>>, e: EntryView) -> FilterResult {
    match source {
        Some(p) => if e.is_dir() || regex_matches(p, false, e.path) {
            FilterResult::Accept
        } else {
            FilterResult::Reject
        },
        None => FilterResult::Accept,
    }
}

/// What the size predicates say: the single lower bound `size` where it is
/// set, the two bounds otherwise.
pub open spec fn size_part(
    size: Option<u64>,
    min: Option<u64>,
    max: Option<u64>,
    e: EntryView,
) -> FilterResult {
    if size is Some {
        size_decision(size, None, e)
    } else {
        and_then_result(
            if min is Some {
                size_decision(min, None, e)
            } else {
                FilterResult::Accept
            },
            if max is Some {
                size_decision(None, max, e)
            } else {
                FilterResult::Accept
            },
        )
    }
}

/// What the predicate for an optional first day says.
pub open spec fn newer_part(date: Option<Seq<char>>, e: EntryView) -> FilterResult {
    match date {
        Some(t) => match iso_day(t) {
            Some(day) => date_decision(Some(day_start(day) as i64), None, e),
            None => FilterResult::Accept,
        },
        None => FilterResult::Accept,
    }
}

/// What the predicate for an optional last day says.
pub open spec fn older_part(date: Option<Seq<char>>, e: EntryView) -> FilterResult {
    match date {
        Some(t) => match iso_day(t) {
            Some(day) => date_decision(None, Some(day_end(day) as i64), e),
            None => FilterResult::Accept,
        },
        None => FilterResult::Accept,
    }
}

/// What the predicates of a standard finder say together: the first
/// refusal among the extension, the name, the path expression, the sizes
/// and the two dates, as far as the settings hold them.
pub open spec fn standard_decision(c: AppConfig, e: EntryView) -> FilterResult {
    and_then_result(
        and_then_result(
            and_then_result(
                and_then_result(
                    and_then_result(
                        extension_part(opt_text(c.extension), e),
                        name_part(opt_text(c.name), e),
                    ),
                    pattern_part(opt_text(c.pattern), e),
                ),
                size_part(c.size, c.min_size, c.max_size, e),
            ),
            newer_part(opt_text(c.newer_than), e),
        ),
        older_part(opt_text(c.older_than), e),
    )
}

/// What the predicate for an optional compiled path expression says.
pub open spec fn expression_part(pattern: Option<Pattern>, e: EntryView) -> FilterResult {
    match pattern {
        Some(p) => if e.is_dir() || p.matches(e.path) {
            FilterResult::Accept
        } else {
            FilterResult::Reject
        },
        None => FilterResult::Accept,
    }
}

/// What the predicates of a standard finder say together where the path
/// expression is the compiled `pattern`, whatever the settings hold as its
/// text: the first refusal among the extension, the name, the path
/// expression, the sizes and the two dates.
pub open spec fn decision_with(c: AppConfig, pattern: Option<Pattern>, e: EntryView) -> FilterResult {
    and_then_result(
        and_then_result(
            and_then_result(
                and_then_result(
                    and_then_result(
                        extension_part(opt_text(c.extension), e),
                        name_part(opt_text(c.name), e),
                    ),
                    expression_part(pattern, e),
                ),
                size_part(c.size, c.min_size, c.max_size, e),
            ),
            newer_part(opt_text(c.newer_than), e),
        ),
        older_part(opt_text(c.older_than), e),
    )
}

/// Whether `pattern` is the path expression of the settings `c`, compiled
/// without case folding.
pub open spec fn is_expression_of(c: AppConfig, pattern: Option<Pattern>) -> bool {
    &&& pattern is Some <==> c.pattern is Some
    &&& pattern matches Some(p) ==> p.source() == c.pattern->0@ && !p.folds_case()
}

/// With the path expression of the settings compiled, the predicates decide
/// as the settings say.
pub proof fn lemma_decision_of_settings(c: AppConfig, pattern: Option<Pattern>, e: EntryView)
    requires
        is_expression_of(c, pattern),
    ensures
        decision_with(c, pattern, e) == standard_decision(c, e),
{
}

/// Whether the dates of the settings, as far as they are set, are dates.
pub open spec fn dates_are_readable(c: AppConfig) -> bool {
    &&& c.newer_than matches Some(t) ==> iso_day(t@) is Some
    &&& c.older_than matches Some(t) ==> iso_day(t@) is Some
}

/// The names under which a standard finder registers its predicates.
pub open spec fn is_standard_name(name: Seq<char>) -> bool {
    name == "extension"@ || name == "name"@ || name == "pattern"@ || name == "size"@ || name
        == "min_size"@ || name == "max_size"@ || name == "newer_than"@ || name == "older_than"@
}

/// Registers `filter` under a name that is not yet taken.
fn add_filter(registry: &mut FilterRegistry, name: &str, filter: Predicate)
    requires
        !old(registry).names().contains(name@),
    ensures
        final(registry).names() == old(registry).names().push(name@),
        final(registry).filters() == old(registry).filters().push(filter),
        old(registry).well_formed() ==> final(registry).well_formed(),
        forall|e: EntryView|
            #[trigger] final(registry).decide(e) == and_then_result(
                old(registry).decide(e),
                filter.decide(e),
            ),
{
    proof {
        old(registry).names().index_of_first_ensures(name@);
    }
    registry.register(name, filter);
    assert forall|e: EntryView| #[trigger]
        registry.decide(e) == and_then_result(old(registry).decide(e), filter.decide(e)) by {
        lemma_conjunction_push(old(registry).filters(), filter, e, 0);
    }
}

/// The registry of a standard finder for `config` with the compiled path
/// expression `pattern`.
fn standard_filters(config: &AppConfig, pattern: Option<Pattern>) -> (r: Result<
    FilterRegistry,
    FilterError,
>)
    ensures
        r is Ok <==> dates_are_readable(*config),
        r matches Ok(registry) ==> registry.well_formed() && forall|e: EntryView|
            #[trigger] registry.decide(e) == decision_with(*config, pattern, e),
        r matches Err(e) ==> e is InvalidDate,
{
    proof {
        reveal_strlit("extension");
        reveal_strlit("name");
        reveal_strlit("pattern");
        reveal_strlit("size");
        reveal_strlit("min_size");
        reveal_strlit("max_size");
        reveal_strlit("newer_than");
        reveal_strlit("older_than");
    }
    assert("name"@[0] != "size"@[0]);
    assert("min_size"@[1] != "max_size"@[1]);
    assert("newer_than"@[0] != "older_than"@[0]);
    let mut registry = FilterRegistry::new();
    if let Some(wanted) = &config.extension {
        add_filter(
            &mut registry,
            "extension",
            Predicate::Extension(ExtensionFilter::new(wanted.as_str())),
        );
    }
    assert(forall|i: int|
        0 <= i < registry.names().len() ==> #[trigger] registry.names()[i] == "extension"@);
    if let Some(wanted) = &config.name {
        add_filter(&mut registry, "name", Predicate::Name(NameFilter::new(wanted.as_str())));
    }
    assert(forall|i: int|
        0 <= i < registry.names().len() ==> #[trigger] registry.names()[i] == "extension"@
            || registry.names()[i] == "name"@);
    if let Some(compiled) = pattern {
        add_filter(
            &mut registry,
            "pattern",
            Predicate::Regex(RegexFilter::from_patterns(Some(compiled), None)),
        );
    }
    assert(forall|i: int|
        0 <= i < registry.names().len() ==> #[trigger] registry.names()[i] == "extension"@
            || registry.names()[i] == "name"@ || registry.names()[i] == "pattern"@);
    if let Some(size) = config.size {
        add_filter(&mut registry, "size", Predicate::Size(SizeFilter::min(size)));
    } else {
        if let Some(min) = config.min_size {
            add_filter(&mut registry, "min_size", Predicate::Size(SizeFilter::min(min)));
        }
        assert(forall|i: int|
            0 <= i < registry.names().len() ==> #[trigger] registry.names()[i] == "extension"@
                || registry.names()[i] == "name"@ || registry.names()[i] == "pattern"@
                || registry.names()[i] == "min_size"@);
        if let Some(max) = config.max_size {
            add_filter(&mut registry, "max_size", Predicate::Size(SizeFilter::max(max)));
        }
    }
    assert(forall|i: int|
        0 <= i < registry.names().len() ==> #[trigger] registry.names()[i] == "extension"@
            || registry.names()[i] == "name"@ || registry.names()[i] == "pattern"@
            || registry.names()[i] == "size"@ || registry.names()[i] == "min_size"@
            || registry.names()[i] == "max_size"@);
    if let Some(date) = &config.newer_than {
        match DateFilter::newer_than(date.as_str()) {
            Ok(filter) => {
                add_filter(&mut registry, "newer_than", Predicate::Date(filter));
            },
            Err(e) => {
                return Err(e);
            },
        }
    }
    assert(forall|i: int|
        0 <= i < registry.names().len() ==> #[trigger] registry.names()[i] == "extension"@
            || registry.names()[i] == "name"@ || registry.names()[i] == "pattern"@
            || registry.names()[i] == "size"@ || registry.names()[i] == "min_size"@
            || registry.names()[i] == "max_size"@ || registry.names()[i] == "newer_than"@);
    if let Some(date) = &config.older_than {
        match DateFilter::older_than(date.as_str()) {
            Ok(filter) => {
                add_filter(&mut registry, "older_than", Predicate::Date(filter));
            },
            Err(e) => {
                return Err(e);
            },
        }
    }
    Ok(registry)
}

/// Whether `f` has what every finder made of the settings `config` and the
/// compiled path expression `pattern` has: it works as the settings say,
/// holds one null observer, and decides as the criteria say.
pub open spec fn has_standard_parts(config: AppConfig, pattern: Option<Pattern>, f: FileFinder) -> bool {
    &&& f.config.follow_links == (config.follow_links == Some(true))
    &&& f.config.max_depth == config.depth
    &&& config.threads matches Some(n) ==> f.config.num_threads == n
    &&& config.threads is None ==> f.config.num_threads >= 1
    &&& f.observer_registry.states() == seq![fresh(ObserverKind::Null)]
    &&& f.filter_registry.well_formed()
    &&& forall|e: EntryView| #[trigger]
        f.filter_registry.decide(e) == decision_with(config, pattern, e)
}

/// Whether `policy` is the policy of a finder for the two compiled path
/// expressions: the default one, which skips hidden entries, where there is
/// neither; otherwise the one that looks at the paths that `allow` matches,
/// where there is one, and `deny` does not.
pub open spec fn is_policy_for(
    allow: Option<Pattern>,
    deny: Option<Pattern>,
    policy: TraversalPolicy,
) -> bool {
    if allow is None && deny is None {
        policy is Default && policy->Default_0.skips_hidden()
    } else {
        policy is Regex && policy->Regex_0.allow() == allow && policy->Regex_0.deny() == deny
    }
}

/// Whether `f` is the standard finder for the settings `config`: it works
/// as the settings say, skips hidden entries, holds one null observer, and
/// decides as the criteria of the settings say.
pub open spec fn is_standard_finder(config: AppConfig, f: FileFinder) -> bool {
    &&& f.config.follow_links == (config.follow_links == Some(true))
    &&& f.config.max_depth == config.depth
    &&& config.threads matches Some(n) ==> f.config.num_threads == n
    &&& config.threads is None ==> f.config.num_threads >= 1
    &&& f.traversal_strategy is Default
    &&& f.traversal_strategy->Default_0.skips_hidden()
    &&& f.observer_registry.states() == seq![fresh(ObserverKind::Null)]
    &&& f.filter_registry.well_formed()
    &&& forall|e: EntryView| #[trigger] f.filter_registry.decide(e) == standard_decision(config, e)
}

fn borrowed(text: &Option<String>) -> (r: Option<&str>)
    ensures
        text_of(r) == opt_text(*text),
{
    match text {
        Some(t) => Some(t.as_str()),
        None => None,
    }
}

impl FinderFactory {
    /// The standard finder for the settings `config`, with `pattern` as its
    /// compiled path expression, whatever the settings hold as its text.
    /// Fails exactly where a date of the settings is no date.
    pub fn standard_finder_with(config: &AppConfig, pattern: Option<Pattern>) -> (r: Result<
        FileFinder,
        FilterError,
    >)
        ensures
            r is Ok <==> dates_are_readable(*config),
            r matches Ok(f) ==> has_standard_parts(*config, pattern, f) && is_policy_for(
                None,
                None,
                f.traversal_strategy,
            ),
            r matches Ok(f) ==> is_expression_of(*config, pattern) ==> is_standard_finder(
                *config,
                f,
            ),
            r matches Err(e) ==> e is InvalidDate,
    {
        FinderFactory::regex_finder_with(config, pattern, None, None)
    }

    /// The finder for the settings `config`, with `pattern` as its compiled
    /// path expression and a policy made of the compiled expressions `allow`
    /// and `deny`. Fails exactly where a date of the settings is no date.
    pub fn regex_finder_with(
        config: &AppConfig,
        pattern: Option<Pattern>,
        allow: Option<Pattern>,
        deny: Option<Pattern>,
    ) -> (r: Result<FileFinder, FilterError>)
        ensures
            r is Ok <==> dates_are_readable(*config),
            r matches Ok(f) ==> has_standard_parts(*config, pattern, f) && is_policy_for(
                allow,
                deny,
                f.traversal_strategy,
            ),
            r matches Ok(f) ==> is_expression_of(*config, pattern) && allow is None && deny
                is None ==> is_standard_finder(*config, f),
            r matches Err(e) ==> e is InvalidDate,
    {
        let filters = match standard_filters(config, pattern) {
            Ok(filters) => filters,
            Err(e) => {
                return Err(e);
            },
        };
        let policy = if allow.is_some() || deny.is_some() {
            TraversalPolicy::Regex(RegexTraversalStrategy::from_patterns(allow, deny))
        } else {
            TraversalPolicy::Default(DefaultTraversalStrategy::new(true))
        };
        let f = FinderFactory::assemble(config, policy, filters);
        proof {
            if is_expression_of(*config, pattern) {
                assert forall|e: EntryView| #[trigger]
                    f.filter_registry.decide(e) == standard_decision(*config, e) by {
                    lemma_decision_of_settings(*config, pattern, e);
                }
            }
        }
        Ok(f)
    }

    /// The standard finder for the settings `config`. The path expression
    /// is compiled before the dates are read. A malformed expression fails
    /// as an invalid pattern, and nothing else does; one that is well formed
    /// may still fail as too large; a date that is no date fails as such.
    pub fn create_standard_finder(config: &AppConfig) -> (r: Result<FileFinder, FilterError>)
        ensures
            r matches Ok(f) ==> is_standard_finder(*config, f),
            is_malformed(opt_text(config.pattern)) <==> (r is Err && r->Err_0 is InvalidPattern),
            r is Err && r->Err_0 is PatternTooLarge ==> is_well_formed(opt_text(config.pattern)),
            r is Err && r->Err_0 is InvalidDate ==> !dates_are_readable(*config),
            r is Ok ==> dates_are_readable(*config),
            config.pattern is None ==> (r is Ok <==> dates_are_readable(*config)),
    {
        let pattern = match compile_optional(borrowed(&config.pattern)) {
            Ok(pattern) => pattern,
            Err(e) => {
                return Err(e);
            },
        };
        FinderFactory::standard_finder_with(config, pattern)
    }

    /// A finder like the standard one whose policy looks only at the paths
    /// that `allow_pattern` matches, where there is one, and that
    /// `deny_pattern` does not match. Without either pattern it is the
    /// standard finder.
    ///
    /// The expressions are compiled in the order allow, deny, path
    /// expression, and then the dates are read; the first failure is the
    /// one that comes back. A malformed expression fails as an invalid
    /// pattern, and nothing else does; one that is well formed may still
    /// fail as too large; a date that is no date fails as such.
    pub fn create_regex_finder(
        config: &AppConfig,
        allow_pattern: Option<&str>,
        deny_pattern: Option<&str>,
    ) -> (r: Result<FileFinder, FilterError>)
        ensures
            r matches Ok(f) ==> {
                &&& f.config.follow_links == (config.follow_links == Some(true))
                &&& f.config.max_depth == config.depth
                &&& config.threads matches Some(n) ==> f.config.num_threads == n
                &&& config.threads is None ==> f.config.num_threads >= 1
                &&& f.observer_registry.states() == seq![fresh(ObserverKind::Null)]
                &&& f.filter_registry.well_formed()
                &&& forall|e: EntryView| #[trigger]
                    f.filter_registry.decide(e) == standard_decision(*config, e)
                &&& if allow_pattern is None && deny_pattern is None {
                    f.traversal_strategy is Default
                        && f.traversal_strategy->Default_0.skips_hidden()
                } else {
                    &&& f.traversal_strategy is Regex
                    &&& f.traversal_strategy->Regex_0.allow() is Some <==> allow_pattern is Some
                    &&& f.traversal_strategy->Regex_0.deny() is Some <==> deny_pattern is Some
                    &&& allow_pattern is Some ==> f.traversal_strategy->Regex_0.allow()->0.source()
                        == allow_pattern->0@ && !f.traversal_strategy->Regex_0.allow()->0.folds_case()
                    &&& deny_pattern is Some ==> f.traversal_strategy->Regex_0.deny()->0.source()
                        == deny_pattern->0@ && !f.traversal_strategy->Regex_0.deny()->0.folds_case()
                }
            },
            r is Err && r->Err_0 is InvalidPattern ==> is_malformed(text_of(allow_pattern))
                || is_malformed(text_of(deny_pattern)) || is_malformed(opt_text(config.pattern)),
            r is Err && r->Err_0 is PatternTooLarge ==> is_well_formed(text_of(allow_pattern))
                || is_well_formed(text_of(deny_pattern)) || is_well_formed(
                opt_text(config.pattern),
            ),
            r is Err && r->Err_0 is InvalidDate ==> !dates_are_readable(*config) && !is_malformed(
                text_of(allow_pattern),
            ) && !is_malformed(text_of(deny_pattern)) && !is_malformed(opt_text(config.pattern)),
            is_malformed(text_of(allow_pattern)) ==> r is Err && r->Err_0 is InvalidPattern,
            is_malformed(text_of(deny_pattern)) || is_malformed(opt_text(config.pattern)) ==> r
                is Err && !(r->Err_0 is InvalidDate),
            r is Ok ==> dates_are_readable(*config),
            config.pattern is None && allow_pattern is None && deny_pattern is None ==> (r is Ok
                <==> dates_are_readable(*config)),
    {
        let allow = match compile_optional(allow_pattern) {
            Ok(pattern) => pattern,
            Err(e) => {
                return Err(e);
            },
        };
        let deny = match compile_optional(deny_pattern) {
            Ok(pattern) => pattern,
            Err(e) => {
                return Err(e);
            },
        };
        let pattern = match compile_optional(borrowed(&config.pattern)) {
            Ok(pattern) => pattern,
            Err(e) => {
                return Err(e);
            },
        };
        FinderFactory::regex_finder_with(config, pattern, allow, deny)
    }

    fn assemble(config: &AppConfig, policy: TraversalPolicy, filters: FilterRegistry) -> (f:
        FileFinder)
        ensures
            f.config.follow_links == (config.follow_links == Some(true)),
            f.config.max_depth == config.depth,
            config.threads matches Some(n) ==> f.config.num_threads == n,
            config.threads is None ==> f.config.num_threads >= 1,
            f.traversal_strategy == policy,
            f.filter_registry == filters,
            f.observer_registry.states() == seq![fresh(ObserverKind::Null)],
    {
        let defaults = FinderConfig::default();
        let finder_config = FinderConfig {
            num_threads: match config.threads {
                Some(n) => n,
                None => defaults.num_threads,
            },
            follow_links: match config.follow_links {
                Some(follow) => follow,
                None => false,
            },
            max_depth: config.depth,
        };
        let mut observers = ObserverRegistry::new();
        observers.register(Observer::Null(NullObserver::new()));
        assert(observers.states() =~= seq![fresh(ObserverKind::Null)]);
        FileFinder::new(finder_config, policy, filters, observers)
    }
}

} // verus!
