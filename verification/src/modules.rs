//! The entry module: which files it registers, and its text.
//!
//! The entry module is the generated file that imports every discovered controller and
//! registers it with the application. Files that the bundler itself produces are never
//! registered, and two controllers may not share an identifier.

use vstd::prelude::*;
use crate::naming::{
    controller_name, display_identifier, identifier_of, is_rooted, name_of, to_upper_camel,
    upper_camel,
};
use crate::text::{contains, occurs_in, texts};

verus! {

/// The legacy entry file, which is published beside the bundle.
pub const MAIN_FILE_NAME: &'static str = "main.js";

/// The file name of the bundle.
pub const BUNDLE_FILE_NAME: &'static str = "bundle.js";

/// The file name of the entry module.
pub const MODULES_FILE_NAME: &'static str = "modules.js";

/// One registered controller: the file it is imported from, the identifier it is
/// registered under and the symbol it is bound to.
#[derive(Debug)]
pub struct ModuleEntry {
    pub path: String,
    pub identifier: String,
    pub symbol: String,
}

/// What a `ModuleEntry` holds, as texts.
pub struct EntryText {
    pub path: Seq<char>,
    pub identifier: Seq<char>,
    pub symbol: Seq<char>,
}

impl View for ModuleEntry {
    type V = EntryText;

    open spec fn view(&self) -> EntryText {
        EntryText { path: self.path@, identifier: self.identifier@, symbol: self.symbol@ }
    }
}

/// Why no entry module can be written for a list of sources.
#[derive(Debug)]
pub enum AssembleError {
    /// The path does not reach below a root, so no name can be derived from it.
    Unrooted(String),
    /// The identifier is derived from two of the sources.
    DuplicateIdentifier(String),
}

/// What is reported to the user for an error.
pub open spec fn message_of(error: AssembleError) -> Seq<char> {
    match error {
        AssembleError::Unrooted(path) => "no controller name for: "@ + path@,
        AssembleError::DuplicateIdentifier(identifier) => "duplicate controller name: "@
            + identifier@,
    }
}

/// The views of a sequence of entries.
pub open spec fn entry_texts(entries: Seq<ModuleEntry>) -> Seq<EntryText> {
    entries.map_values(|e: ModuleEntry| e@)
}

/// A path that holds the name of a file the bundler produces.
pub open spec fn is_artifact(path: Seq<char>) -> bool {
    ||| occurs_in(MAIN_FILE_NAME@, path)
    ||| occurs_in(BUNDLE_FILE_NAME@, path)
    ||| occurs_in(MODULES_FILE_NAME@, path)
}

/// The paths among `paths` that are sources, in their order.
pub open spec fn sources_among(paths: Seq<Seq<char>>) -> Seq<Seq<char>> {
    paths.filter(|path: Seq<char>| !is_artifact(path))
}

/// The sources among the files found below the components root followed by those among
/// the files found in the static directory.
pub open spec fn discovered(components: Seq<Seq<char>>, statics: Seq<Seq<char>>) -> Seq<
    Seq<char>,
> {
    sources_among(components + statics)
}

/// The entry of the source at `path`.
pub open spec fn entry_of(path: Seq<char>) -> EntryText {
    EntryText {
        path,
        identifier: identifier_of(name_of(path)),
        symbol: upper_camel(name_of(path)),
    }
}

/// The source at `k` has the identifier of an earlier source.
pub open spec fn collides(paths: Seq<Seq<char>>, k: int) -> bool {
    exists|j: int|
        0 <= j < k && #[trigger] entry_of(paths[j]).identifier == entry_of(paths[k]).identifier
}

/// The source at `k` cannot be registered after those before it.
pub open spec fn rejected_at(paths: Seq<Seq<char>>, k: int) -> bool {
    !is_rooted(paths[k]) || collides(paths, k)
}

/// Every source can be registered.
pub open spec fn accepted(paths: Seq<Seq<char>>) -> bool {
    forall|k: int| 0 <= k < paths.len() ==> !rejected_at(paths, k)
}

/// `k` is the first source that cannot be registered.
pub open spec fn first_rejected(paths: Seq<Seq<char>>, k: int) -> bool {
    &&& 0 <= k < paths.len()
    &&& rejected_at(paths, k)
    &&& forall|j: int| 0 <= j < k ==> !rejected_at(paths, j)
}

/// The first source that cannot be registered is `path`, which is not rooted.
pub open spec fn stops_unrooted(paths: Seq<Seq<char>>, path: Seq<char>) -> bool {
    exists|k: int| #[trigger]
        first_rejected(paths, k) && !is_rooted(paths[k]) && path == paths[k]
}

/// The first source that cannot be registered is rooted, and `identifier`, which it
/// shares with an earlier source, is its identifier.
pub open spec fn stops_duplicate(paths: Seq<Seq<char>>, identifier: Seq<char>) -> bool {
    exists|k: int| #[trigger]
        first_rejected(paths, k) && is_rooted(paths[k]) && identifier == entry_of(
            paths[k],
        ).identifier
}

/// The entries of `paths`, one for each path and in the same order.
pub open spec fn entries_of(paths: Seq<Seq<char>>) -> Seq<EntryText> {
    paths.map_values(|path: Seq<char>| entry_of(path))
}

/// The lines that open every entry module.
pub open spec fn preamble() -> Seq<char> {
    "// Build with --bin components\n"@ + "import { Application } from '@hotwired/stimulus'\n"@
        + "const application = Application.start()\n"@
}

/// The line that imports a controller.
pub open spec fn import_line(entry: EntryText) -> Seq<char> {
    "import { default as "@ + entry.symbol + " } from '../../"@ + entry.path + "'\n"@
}

/// The line that registers a controller.
pub open spec fn register_line(entry: EntryText) -> Seq<char> {
    "application.register('"@ + entry.identifier + "', "@ + entry.symbol + ")\n"@
}

/// The import line and the registration line of each entry, in the order of the entries.
pub open spec fn registrations(entries: Seq<EntryText>) -> Seq<char>
    decreases entries.len(),
{
    if entries.len() == 0 {
        Seq::<char>::empty()
    } else {
        registrations(entries.drop_last()) + import_line(entries.last()) + register_line(
            entries.last(),
        )
    }
}

/// The text of the entry module that registers `entries`.
pub open spec fn module_text(entries: Seq<EntryText>) -> Seq<char> {
    preamble() + registrations(entries)
}

/// Whatever the globs matched, no discovered source holds `main.js`, `bundle.js` or
/// `modules.js` anywhere in its path. Every discovered source is one of the matched files,
/// and every matched file that holds none of the three names is discovered.
pub proof fn lemma_discovery_excludes_artifacts(
    components: Seq<Seq<char>>,
    statics: Seq<Seq<char>>,
)
    ensures
        forall|i: int|
            #![trigger discovered(components, statics)[i]]
            0 <= i < discovered(components, statics).len() ==> {
                &&& !occurs_in("main.js"@, discovered(components, statics)[i])
                &&& !occurs_in("bundle.js"@, discovered(components, statics)[i])
                &&& !occurs_in("modules.js"@, discovered(components, statics)[i])
                &&& (components + statics).contains(discovered(components, statics)[i])
            },
        forall|i: int|
            #![trigger (components + statics)[i]]
            0 <= i < (components + statics).len() && !is_artifact((components + statics)[i])
                ==> discovered(components, statics).contains((components + statics)[i]),
{
    let matched = components + statics;
    let keep = |path: Seq<char>| !is_artifact(path);
    assert forall|i: int| 0 <= i < matched.filter(keep).len() implies {
        &&& !is_artifact(#[trigger] matched.filter(keep)[i])
        &&& matched.contains(matched.filter(keep)[i])
    } by {
        matched.lemma_filter_pred(keep, i);
        assert(matched.filter(keep).contains(matched.filter(keep)[i]));
        matched.lemma_filter_contains_rev(keep, matched.filter(keep)[i]);
    }
    assert forall|i: int| 0 <= i < matched.len() && !is_artifact(matched[i]) implies matched.filter(
        keep,
    ).contains(#[trigger] matched[i]) by {
        matched.lemma_filter_contains(keep, i);
    }
}

/// A source that cannot be registered is, or comes after, the first such source.
pub proof fn lemma_first_rejected_exists(paths: Seq<Seq<char>>, k: int)
    requires
        0 <= k < paths.len(),
        rejected_at(paths, k),
    ensures
        exists|first: int| first <= k && #[trigger] first_rejected(paths, first),
    decreases k,
{
    if exists|j: int| 0 <= j < k && rejected_at(paths, j) {
        let j = choose|j: int| 0 <= j < k && rejected_at(paths, j);
        lemma_first_rejected_exists(paths, j);
    } else {
        assert(first_rejected(paths, k));
    }
}

/// Two sources with the same identifier are not both registered: a list that holds them
/// is not accepted. Where all its sources are rooted, the scan stops at a duplicate
/// identifier.
pub proof fn lemma_collision_rejected(paths: Seq<Seq<char>>, j: int, k: int)
    requires
        0 <= j < k < paths.len(),
        entry_of(paths[j]).identifier == entry_of(paths[k]).identifier,
    ensures
        !accepted(paths),
        (forall|i: int| 0 <= i < paths.len() ==> is_rooted(#[trigger] paths[i])) ==> exists|
            identifier: Seq<char>,
        | stops_duplicate(paths, identifier),
{
    assert(collides(paths, k));
    assert(rejected_at(paths, k));
    lemma_first_rejected_exists(paths, k);
    if forall|i: int| 0 <= i < paths.len() ==> is_rooted(#[trigger] paths[i]) {
        let first = choose|first: int| first <= k && #[trigger] first_rejected(paths, first);
        assert(is_rooted(paths[first]));
        assert(stops_duplicate(paths, entry_of(paths[first]).identifier));
    }
}

/// A list of sources is accepted exactly when each of them is rooted and no two of them
/// have the same identifier.
pub proof fn lemma_accepted_iff_distinct(paths: Seq<Seq<char>>)
    ensures
        accepted(paths) <==> {
            &&& forall|i: int| 0 <= i < paths.len() ==> is_rooted(#[trigger] paths[i])
            &&& forall|i: int, j: int|
                0 <= i < j < paths.len() ==> #[trigger] entry_of(paths[i]).identifier
                    != #[trigger] entry_of(paths[j]).identifier
        },
{
    if accepted(paths) {
        assert forall|i: int| 0 <= i < paths.len() implies is_rooted(#[trigger] paths[i]) by {
            assert(!rejected_at(paths, i));
        }
        assert forall|i: int, j: int| 0 <= i < j < paths.len() implies #[trigger] entry_of(
            paths[i],
        ).identifier != #[trigger] entry_of(paths[j]).identifier by {
            assert(!rejected_at(paths, j));
        }
    } else {
        let k = choose|k: int| 0 <= k < paths.len() && rejected_at(paths, k);
        if is_rooted(paths[k]) {
            let j = choose|j: int|
                0 <= j < k && #[trigger] entry_of(paths[j]).identifier == entry_of(
                    paths[k],
                ).identifier;
            assert(entry_of(paths[j]).identifier == entry_of(paths[k]).identifier);
        }
    }
}

/// The registrations of two lists of entries, one after the other, are the registrations
/// of the lists joined.
pub proof fn lemma_registrations_of_joined(left: Seq<EntryText>, right: Seq<EntryText>)
    ensures
        registrations(left + right) == registrations(left) + registrations(right),
    decreases right.len(),
{
    if right.len() == 0 {
        assert(left + right =~= left);
    } else {
        lemma_registrations_of_joined(left, right.drop_last());
        assert((left + right).drop_last() =~= left + right.drop_last());
    }
}

/// Rooted sources whose identifiers all differ are accepted, and the entry module then
/// holds exactly one import line and one registration line for each of them: after the
/// preamble come the pairs of the sources before `k`, then the pair of source `k`, then
/// the pairs of the sources after it.
pub proof fn lemma_one_pair_per_source(paths: Seq<Seq<char>>, k: int)
    requires
        0 <= k < paths.len(),
        forall|i: int| 0 <= i < paths.len() ==> is_rooted(#[trigger] paths[i]),
        forall|i: int, j: int|
            0 <= i < j < paths.len() ==> #[trigger] entry_of(paths[i]).identifier
                != #[trigger] entry_of(paths[j]).identifier,
    ensures
        accepted(paths),
        entries_of(paths).len() == paths.len(),
        module_text(entries_of(paths)) == preamble() + registrations(entries_of(paths.take(k)))
            + import_line(entry_of(paths[k])) + register_line(entry_of(paths[k]))
            + registrations(entries_of(paths.skip(k + 1))),
{
    let entries = entries_of(paths);
    let before = entries_of(paths.take(k));
    let after = entries_of(paths.skip(k + 1));
    let one = seq![entry_of(paths[k])];
    assert(entries =~= before + one + after);
    lemma_registrations_of_joined(before + one, after);
    lemma_registrations_of_joined(before, one);
    assert(registrations(one.drop_last()) =~= Seq::<char>::empty());
    assert(registrations(one) =~= import_line(entry_of(paths[k])) + register_line(
        entry_of(paths[k]),
    ));
    assert(module_text(entries) =~= preamble() + registrations(before) + import_line(
        entry_of(paths[k]),
    ) + register_line(entry_of(paths[k])) + registrations(after));
}

/// Whether `path` holds the name of a file the bundler produces.
pub fn is_generated_artifact(path: &str) -> (artifact: bool)
    ensures
        artifact == is_artifact(path@),
{
    contains(path, MAIN_FILE_NAME) || contains(path, BUNDLE_FILE_NAME) || contains(
        path,
        MODULES_FILE_NAME,
    )
}

/// Appends to `sources` the sources among `files`.
fn keep_sources(files: &Vec<String>, sources: &mut Vec<String>)
    ensures
        texts(final(sources)@) == texts(old(sources)@) + sources_among(texts(files@)),
{
    let mut i: usize = 0;
    proof {
        reveal(Seq::filter);
    }
    while i < files.len()
        invariant
            i <= files.len(),
            texts(sources@) == texts(old(sources)@) + sources_among(
                texts(files@).take(i as int),
            ),
        decreases files.len() - i,
    {
        proof {
            reveal(Seq::filter);
            assert(texts(files@).take(i + 1).drop_last() =~= texts(files@).take(i as int));
        }
        if !is_generated_artifact(files[i].as_str()) {
            let ghost before = sources@;
            sources.push(files[i].clone());
            assert(texts(sources@) =~= texts(before).push(files@[i as int]@));
        }
        i += 1;
    }
    assert(texts(files@).take(i as int) =~= texts(files@));
}

/// The sources to register: the files found below the components root, then those found
/// in the static directory, without the files that the bundler itself produces.
pub fn discover_sources(component_files: &Vec<String>, static_files: &Vec<String>) -> (sources:
    Vec<String>)
    ensures
        texts(sources@) == discovered(texts(component_files@), texts(static_files@)),
{
    let mut sources: Vec<String> = Vec::new();
    keep_sources(component_files, &mut sources);
    keep_sources(static_files, &mut sources);
    proof {
        Seq::filter_distributes_over_add(
            texts(component_files@),
            texts(static_files@),
            |path: Seq<char>| !is_artifact(path),
        );
    }
    sources
}

impl ModuleEntry {
    /// The entry of the source at `path`, or `None` where the path is not rooted.
    pub fn from_path(path: &str) -> (entry: Option<ModuleEntry>)
        ensures
            entry is Some <==> is_rooted(path@),
            entry matches Some(e) ==> e@ == entry_of(path@),
    {
        match controller_name(path) {
            Some(name) => {
                let identifier = display_identifier(name.as_str());
                let symbol = to_upper_camel(name.as_str());
                Some(ModuleEntry { path: String::from_str(path), identifier, symbol })
            },
            None => None,
        }
    }
}

impl AssembleError {
    /// What is reported to the user for this error.
    pub fn message(&self) -> (text: String)
        ensures
            text@ == message_of(*self),
    {
        match self {
            AssembleError::Unrooted(path) => {
                let mut text = String::from_str("no controller name for: ");
                text.append(path.as_str());
                text
            },
            AssembleError::DuplicateIdentifier(identifier) => {
                let mut text = String::from_str("duplicate controller name: ");
                text.append(identifier.as_str());
                text
            },
        }
    }
}

/// Whether one of `entries` is registered under `identifier`.
fn is_registered(entries: &Vec<ModuleEntry>, identifier: &String) -> (found: bool)
    ensures
        found == exists|j: int|
            0 <= j < entries@.len() && (#[trigger] entries@[j]).identifier@ == identifier@,
{
    let mut j: usize = 0;
    while j < entries.len()
        invariant
            j <= entries.len(),
            forall|i: int| 0 <= i < j ==> (#[trigger] entries@[i]).identifier@ != identifier@,
        decreases entries.len() - j,
    {
        if entries[j].identifier == *identifier {
            return true;
        }
        j += 1;
    }
    false
}

/// The entries of `sources`, in their order. The first source that is not rooted, or whose
/// identifier an earlier source already has, ends the scan with its error.
pub fn module_entries(sources: &Vec<String>) -> (result: Result<Vec<ModuleEntry>, AssembleError>)
    ensures
        result is Ok <==> accepted(texts(sources@)),
        match result {
            Ok(entries) => entry_texts(entries@) == entries_of(texts(sources@)),
            Err(AssembleError::Unrooted(path)) => stops_unrooted(texts(sources@), path@),
            Err(AssembleError::DuplicateIdentifier(identifier)) => stops_duplicate(
                texts(sources@),
                identifier@,
            ),
        },
{
    let ghost paths = texts(sources@);
    let mut entries: Vec<ModuleEntry> = Vec::new();
    let mut k: usize = 0;
    while k < sources.len()
        invariant
            k <= sources.len(),
            paths == texts(sources@),
            entries@.len() == k,
            forall|j: int| 0 <= j < k ==> !rejected_at(paths, j),
            forall|j: int| 0 <= j < k ==> (#[trigger] entries@[j])@ == entry_of(paths[j]),
        decreases sources.len() - k,
    {
        let entry = match ModuleEntry::from_path(sources[k].as_str()) {
            Some(entry) => entry,
            None => {
                assert(first_rejected(paths, k as int));
                return Err(AssembleError::Unrooted(sources[k].clone()));
            },
        };
        if is_registered(&entries, &entry.identifier) {
            proof {
                let j = choose|j: int|
                    0 <= j < entries@.len() && (#[trigger] entries@[j]).identifier@
                        == entry.identifier@;
                assert(entry_of(paths[j]).identifier == entry_of(paths[k as int]).identifier);
                assert(first_rejected(paths, k as int));
            }
            return Err(AssembleError::DuplicateIdentifier(entry.identifier));
        }
        proof {
            if collides(paths, k as int) {
                let j = choose|j: int|
                    0 <= j < k && #[trigger] entry_of(paths[j]).identifier == entry_of(
                        paths[k as int],
                    ).identifier;
                assert(entries@[j]@ == entry_of(paths[j]));
            }
        }
        entries.push(entry);
        k += 1;
    }
    Ok(entries)
}

/// The text of the entry module that registers `entries`.
pub fn render_modules(entries: &Vec<ModuleEntry>) -> (text: String)
    ensures
        text@ == module_text(entry_texts(entries@)),
{
    let mut text = String::from_str("// Build with --bin components\n");
    text.append("import { Application } from '@hotwired/stimulus'\n");
    text.append("const application = Application.start()\n");
    let mut k: usize = 0;
    while k < entries.len()
        invariant
            k <= entries.len(),
            text@ == preamble() + registrations(entry_texts(entries@).take(k as int)),
        decreases entries.len() - k,
    {
        let entry = &entries[k];
        let ghost before = text@;
        text.append("import { default as ");
        text.append(entry.symbol.as_str());
        text.append(" } from '../../");
        text.append(entry.path.as_str());
        text.append("'\n");
        text.append("application.register('");
        text.append(entry.identifier.as_str());
        text.append("', ");
        text.append(entry.symbol.as_str());
        text.append(")\n");
        proof {
            let shown = entry_texts(entries@);
            assert(shown.take(k + 1).drop_last() =~= shown.take(k as int));
            assert(text@ =~= before + import_line(entry@) + register_line(entry@));
        }
        k += 1;
    }
    assert(entry_texts(entries@).take(k as int) =~= entry_texts(entries@));
    text
}

/// The text of the entry module for the files that the two globs matched, or the reason
/// why there is none.
pub fn assemble_modules(component_files: &Vec<String>, static_files: &Vec<String>) -> (result:
    Result<String, AssembleError>)
    ensures
        result is Ok <==> accepted(discovered(texts(component_files@), texts(static_files@))),
        match result {
            Ok(text) => text@ == module_text(
                entries_of(discovered(texts(component_files@), texts(static_files@))),
            ),
            Err(AssembleError::Unrooted(path)) => stops_unrooted(
                discovered(texts(component_files@), texts(static_files@)),
                path@,
            ),
            Err(AssembleError::DuplicateIdentifier(identifier)) => stops_duplicate(
                discovered(texts(component_files@), texts(static_files@)),
                identifier@,
            ),
        },
{
    let sources = discover_sources(component_files, static_files);
    match module_entries(&sources) {
        Ok(entries) => Ok(render_modules(&entries)),
        Err(error) => Err(error),
    }
}

} // verus!
