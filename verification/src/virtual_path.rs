//! The grammar of the virtual filesystem: which paths there are, how a path is
//! read, and how it is written.
use crate::error::{refused, ErrorView, SdkError};
use crate::text::{
    cat, cat3, decimal, decimal_text, ends_with, has_prefix, has_suffix, is_digit, is_space,
    lemma_decimal_value, owned, parse_unsigned, same, segments, split_segments, starts_with,
    text_of, chars_of, trim, trimmed, trimmed_end, trimmed_start, unsigned_digits, unsigned_value,
    views,
};
use vstd::prelude::*;
use vstd::string::StringExecFns;

verus! {

/// A node of the virtual filesystem.
#[derive(Debug)]
pub enum VirtualPath {
    Root,
    ActionRoot,
    ActionDir { action_uuid: String },
    ActionName { action_uuid: String },
    ActionMetadata { action_uuid: String },
    ActionInputSchema { action_uuid: String },
    ActionOutputSchema { action_uuid: String },
    ActionScript { action_uuid: String },
    ActionLatestInvocation { action_uuid: String },
    CollectionRoot,
    CollectionDir { collection_uuid: String },
    CollectionName { collection_uuid: String },
    CollectionCardJsx { collection_uuid: String },
    CollectionActions { collection_uuid: String },
    CollectionThingsDir { collection_uuid: String },
    ThingDir { collection_uuid: String, thing_uuid: String },
    ThingName { collection_uuid: String, thing_uuid: String },
    ThingActions { collection_uuid: String, thing_uuid: String },
    ThingStatus { collection_uuid: String, thing_uuid: String },
    ThingContent { collection_uuid: String, thing_uuid: String },
    ThingEntry { collection_uuid: String, thing_uuid: String, index: usize },
    ThingEntryData { collection_uuid: String, thing_uuid: String, index: usize },
    ThingEntrySchema { collection_uuid: String, thing_uuid: String, index: usize },
    ThingChildrenDir { collection_uuid: String, thing_uuid: String },
    TriggerDir { trigger_uuid: String },
    TriggerAction { trigger_uuid: String },
}

/// The files of one action.
pub enum ActionFile {
    Dir,
    Name,
    Metadata,
    InputSchema,
    OutputSchema,
    Script,
    LatestInvocation,
}

/// The nodes of one collection.
pub enum CollectionFile {
    Dir,
    Name,
    CardJsx,
    Actions,
    Things,
}

/// The nodes of one thing.
pub enum ThingFile {
    Dir,
    Name,
    Actions,
    Status,
    Content,
    Entry(nat),
    EntryData(nat),
    EntrySchema(nat),
    Children,
}

/// The nodes of one trigger.
pub enum TriggerFile {
    Dir,
    Action,
}

/// A node of the virtual filesystem over character sequences.
#[allow(inconsistent_fields)]
pub enum PathView {
    Root,
    ActionRoot,
    Action { action: Seq<char>, file: ActionFile },
    CollectionRoot,
    Collection { collection: Seq<char>, file: CollectionFile },
    Thing { collection: Seq<char>, thing: Seq<char>, file: ThingFile },
    Trigger { trigger: Seq<char>, file: TriggerFile },
}

impl View for VirtualPath {
    type V = PathView;

    open spec fn view(&self) -> PathView {
        match self {
            VirtualPath::Root => PathView::Root,
            VirtualPath::ActionRoot => PathView::ActionRoot,
            VirtualPath::ActionDir { action_uuid } => action_view(action_uuid@, ActionFile::Dir),
            VirtualPath::ActionName { action_uuid } => action_view(action_uuid@, ActionFile::Name),
            VirtualPath::ActionMetadata { action_uuid } => action_view(
                action_uuid@,
                ActionFile::Metadata,
            ),
            VirtualPath::ActionInputSchema { action_uuid } => action_view(
                action_uuid@,
                ActionFile::InputSchema,
            ),
            VirtualPath::ActionOutputSchema { action_uuid } => action_view(
                action_uuid@,
                ActionFile::OutputSchema,
            ),
            VirtualPath::ActionScript { action_uuid } => action_view(
                action_uuid@,
                ActionFile::Script,
            ),
            VirtualPath::ActionLatestInvocation { action_uuid } => action_view(
                action_uuid@,
                ActionFile::LatestInvocation,
            ),
            VirtualPath::CollectionRoot => PathView::CollectionRoot,
            VirtualPath::CollectionDir { collection_uuid } => collection_view(
                collection_uuid@,
                CollectionFile::Dir,
            ),
            VirtualPath::CollectionName { collection_uuid } => collection_view(
                collection_uuid@,
                CollectionFile::Name,
            ),
            VirtualPath::CollectionCardJsx { collection_uuid } => collection_view(
                collection_uuid@,
                CollectionFile::CardJsx,
            ),
            VirtualPath::CollectionActions { collection_uuid } => collection_view(
                collection_uuid@,
                CollectionFile::Actions,
            ),
            VirtualPath::CollectionThingsDir { collection_uuid } => collection_view(
                collection_uuid@,
                CollectionFile::Things,
            ),
            VirtualPath::ThingDir { collection_uuid, thing_uuid } => thing_view(
                collection_uuid@,
                thing_uuid@,
                ThingFile::Dir,
            ),
            VirtualPath::ThingName { collection_uuid, thing_uuid } => thing_view(
                collection_uuid@,
                thing_uuid@,
                ThingFile::Name,
            ),
            VirtualPath::ThingActions { collection_uuid, thing_uuid } => thing_view(
                collection_uuid@,
                thing_uuid@,
                ThingFile::Actions,
            ),
            VirtualPath::ThingStatus { collection_uuid, thing_uuid } => thing_view(
                collection_uuid@,
                thing_uuid@,
                ThingFile::Status,
            ),
            VirtualPath::ThingContent { collection_uuid, thing_uuid } => thing_view(
                collection_uuid@,
                thing_uuid@,
                ThingFile::Content,
            ),
            VirtualPath::ThingEntry { collection_uuid, thing_uuid, index } => thing_view(
                collection_uuid@,
                thing_uuid@,
                ThingFile::Entry(*index as nat),
            ),
            VirtualPath::ThingEntryData { collection_uuid, thing_uuid, index } => thing_view(
                collection_uuid@,
                thing_uuid@,
                ThingFile::EntryData(*index as nat),
            ),
            VirtualPath::ThingEntrySchema { collection_uuid, thing_uuid, index } => thing_view(
                collection_uuid@,
                thing_uuid@,
                ThingFile::EntrySchema(*index as nat),
            ),
            VirtualPath::ThingChildrenDir { collection_uuid, thing_uuid } => thing_view(
                collection_uuid@,
                thing_uuid@,
                ThingFile::Children,
            ),
            VirtualPath::TriggerDir { trigger_uuid } => trigger_view(
                trigger_uuid@,
                TriggerFile::Dir,
            ),
            VirtualPath::TriggerAction { trigger_uuid } => trigger_view(
                trigger_uuid@,
                TriggerFile::Action,
            ),
        }
    }
}

pub open spec fn action_view(action: Seq<char>, file: ActionFile) -> PathView {
    PathView::Action { action, file }
}

pub open spec fn collection_view(collection: Seq<char>, file: CollectionFile) -> PathView {
    PathView::Collection { collection, file }
}

pub open spec fn thing_view(collection: Seq<char>, thing: Seq<char>, file: ThingFile) -> PathView {
    PathView::Thing { collection, thing, file }
}

pub open spec fn trigger_view(trigger: Seq<char>, file: TriggerFile) -> PathView {
    PathView::Trigger { trigger, file }
}

/// Each part with a slash before it.
pub open spec fn slashed(parts: Seq<Seq<char>>) -> Seq<char>
    decreases parts.len(),
{
    if parts.len() == 0 {
        Seq::empty()
    } else {
        slashed(parts.drop_last()).push('/') + parts.last()
    }
}

/// The index in a name of the form `entries.{index}{suffix}`.
pub open spec fn entry_index(segment: Seq<char>, suffix: Seq<char>) -> Option<nat> {
    unsigned_value(
        segment.subrange(8, segment.len() - suffix.len()),
        usize::MAX as nat,
    )
}

/// What an error on a path says.
pub open spec fn path_fault(path: Seq<char>, code: Seq<char>, message: Seq<char>) -> ErrorView {
    ErrorView::Path { path, code, message }
}

pub open spec fn entry_path(
    path: Seq<char>,
    collection: Seq<char>,
    thing: Seq<char>,
    segment: Seq<char>,
) -> Result<PathView, ErrorView> {
    if ends_with(segment, ".data.json"@) && segment.len() >= 18 {
        match entry_index(segment, ".data.json"@) {
            Some(index) => Ok(thing_view(collection, thing, ThingFile::EntryData(index))),
            None => Err(
                path_fault(
                    path,
                    "invalid_entry_index"@,
                    "entries.{idx}.data.json must use a non-negative integer index."@,
                ),
            ),
        }
    } else if ends_with(segment, ".schema.json"@) && segment.len() >= 20 {
        match entry_index(segment, ".schema.json"@) {
            Some(index) => Ok(thing_view(collection, thing, ThingFile::EntrySchema(index))),
            None => Err(
                path_fault(
                    path,
                    "invalid_entry_index"@,
                    "entries.{idx}.schema.json must use a non-negative integer index."@,
                ),
            ),
        }
    } else {
        match entry_index(segment, Seq::empty()) {
            Some(index) => Ok(thing_view(collection, thing, ThingFile::Entry(index))),
            None => Err(
                path_fault(
                    path,
                    "invalid_entry_index"@,
                    "entries.{idx} must end with a non-negative integer index."@,
                ),
            ),
        }
    }
}

/// The node that a path names, or why it names none.
pub open spec fn parsed(path: Seq<char>) -> Result<PathView, ErrorView> {
    let s = segments(path);
    let unsupported = path_fault(
        path,
        "invalid_path"@,
        "Unsupported path. Expected /action/... or /collection/... according to the virtual filesystem contract."@,
    );
    if path == "/"@ {
        Ok(PathView::Root)
    } else if s.len() >= 1 && s[0] == "action"@ {
        if s.len() == 1 {
            Ok(PathView::ActionRoot)
        } else if s.len() == 2 {
            Ok(action_view(s[1], ActionFile::Dir))
        } else if s.len() == 3 && s[2] == "name"@ {
            Ok(action_view(s[1], ActionFile::Name))
        } else if s.len() == 3 && s[2] == "metadata.json"@ {
            Ok(action_view(s[1], ActionFile::Metadata))
        } else if s.len() == 3 && s[2] == "input.schema.json"@ {
            Ok(action_view(s[1], ActionFile::InputSchema))
        } else if s.len() == 3 && s[2] == "output.schema.json"@ {
            Ok(action_view(s[1], ActionFile::OutputSchema))
        } else if s.len() == 3 && s[2] == "script.js"@ {
            Ok(action_view(s[1], ActionFile::Script))
        } else if s.len() == 3 && s[2] == "latest-invocation.json"@ {
            Ok(action_view(s[1], ActionFile::LatestInvocation))
        } else {
            Err(unsupported)
        }
    } else if s.len() >= 1 && s[0] == "collection"@ {
        if s.len() == 1 {
            Ok(PathView::CollectionRoot)
        } else if s.len() == 2 {
            Ok(collection_view(s[1], CollectionFile::Dir))
        } else if s.len() == 3 && s[2] == "name"@ {
            Ok(collection_view(s[1], CollectionFile::Name))
        } else if s.len() == 3 && s[2] == "card.jsx"@ {
            Ok(collection_view(s[1], CollectionFile::CardJsx))
        } else if s.len() == 3 && s[2] == "actions.json"@ {
            Ok(collection_view(s[1], CollectionFile::Actions))
        } else if s.len() == 3 && s[2] == "things"@ {
            Ok(collection_view(s[1], CollectionFile::Things))
        } else if s.len() == 4 && s[2] == "things"@ {
            Ok(thing_view(s[1], s[3], ThingFile::Dir))
        } else if s.len() == 5 && s[2] == "things"@ {
            if s[4] == "name"@ {
                Ok(thing_view(s[1], s[3], ThingFile::Name))
            } else if s[4] == "actions.json"@ {
                Ok(thing_view(s[1], s[3], ThingFile::Actions))
            } else if s[4] == "status"@ {
                Ok(thing_view(s[1], s[3], ThingFile::Status))
            } else if s[4] == "content.md"@ {
                Ok(thing_view(s[1], s[3], ThingFile::Content))
            } else if starts_with(s[4], "entries."@) {
                entry_path(path, s[1], s[3], s[4])
            } else if s[4] == "things"@ {
                Ok(thing_view(s[1], s[3], ThingFile::Children))
            } else {
                Err(unsupported)
            }
        } else {
            Err(unsupported)
        }
    } else if s.len() == 2 && s[0] == "trigger"@ {
        Ok(trigger_view(s[1], TriggerFile::Dir))
    } else if s.len() == 3 && s[0] == "trigger"@ && s[2] == "action.json"@ {
        Ok(trigger_view(s[1], TriggerFile::Action))
    } else {
        Err(unsupported)
    }
}

/// The parts of a path between slashes.
pub open spec fn path_parts(path: PathView) -> Seq<Seq<char>> {
    match path {
        PathView::Root => Seq::empty(),
        PathView::ActionRoot => seq!["action"@],
        PathView::Action { action, file } => match file {
            ActionFile::Dir => seq!["action"@, action],
            ActionFile::Name => seq!["action"@, action, "name"@],
            ActionFile::Metadata => seq!["action"@, action, "metadata.json"@],
            ActionFile::InputSchema => seq!["action"@, action, "input.schema.json"@],
            ActionFile::OutputSchema => seq!["action"@, action, "output.schema.json"@],
            ActionFile::Script => seq!["action"@, action, "script.js"@],
            ActionFile::LatestInvocation => seq!["action"@, action, "latest-invocation.json"@],
        },
        PathView::CollectionRoot => seq!["collection"@],
        PathView::Collection { collection, file } => match file {
            CollectionFile::Dir => seq!["collection"@, collection],
            CollectionFile::Name => seq!["collection"@, collection, "name"@],
            CollectionFile::CardJsx => seq!["collection"@, collection, "card.jsx"@],
            CollectionFile::Actions => seq!["collection"@, collection, "actions.json"@],
            CollectionFile::Things => seq!["collection"@, collection, "things"@],
        },
        PathView::Thing { collection, thing, file } => {
            let dir = seq!["collection"@, collection, "things"@, thing];
            match file {
                ThingFile::Dir => dir,
                ThingFile::Name => dir.push("name"@),
                ThingFile::Actions => dir.push("actions.json"@),
                ThingFile::Status => dir.push("status"@),
                ThingFile::Content => dir.push("content.md"@),
                ThingFile::Entry(index) => dir.push("entries."@ + decimal(index)),
                ThingFile::EntryData(index) => dir.push(
                    "entries."@ + decimal(index) + ".data.json"@,
                ),
                ThingFile::EntrySchema(index) => dir.push(
                    "entries."@ + decimal(index) + ".schema.json"@,
                ),
                ThingFile::Children => dir.push("things"@),
            }
        },
        PathView::Trigger { trigger, file } => match file {
            TriggerFile::Dir => seq!["trigger"@, trigger],
            TriggerFile::Action => seq!["trigger"@, trigger, "action.json"@],
        },
    }
}

/// How a path is written.
pub open spec fn displayed(path: PathView) -> Seq<char> {
    if path is Root {
        "/"@
    } else {
        slashed(path_parts(path))
    }
}

/// A path in its normal form, or why it is none.
pub open spec fn normalized(path: Seq<char>) -> Result<Seq<char>, ErrorView> {
    let t = trimmed(path);
    if t.len() == 0 {
        Err(path_fault("/"@, "invalid_path"@, "Path must not be empty."@))
    } else if t[0] != '/' {
        Err(path_fault(t, "invalid_path"@, "Path must start with '/'."@))
    } else if segments(t).len() == 0 {
        Ok("/"@)
    } else {
        Ok(slashed(segments(t)))
    }
}

/// A part that stands between slashes: not empty, and without a slash.
pub open spec fn plain_part(part: Seq<char>) -> bool {
    part.len() > 0 && forall|i: int| 0 <= i < part.len() ==> part[i] != '/'
}

/// A path whose ids stand between slashes.
pub open spec fn plain_path(path: PathView) -> bool {
    match path {
        PathView::Root | PathView::ActionRoot | PathView::CollectionRoot => true,
        PathView::Action { action, .. } => plain_part(action),
        PathView::Collection { collection, .. } => plain_part(collection),
        PathView::Thing { collection, thing, file } => {
            &&& plain_part(collection)
            &&& plain_part(thing)
            &&& match file {
                ThingFile::Entry(index) | ThingFile::EntryData(index) | ThingFile::EntrySchema(
                    index,
                ) => index <= usize::MAX,
                _ => true,
            }
        },
        PathView::Trigger { trigger, .. } => plain_part(trigger),
    }
}

/// Writes each part with a slash before it.
fn slash(parts: &Vec<String>) -> (out: String)
    ensures
        out@ == slashed(views(parts@)),
{
    let mut out = String::new();
    let mut i: usize = 0;
    while i < parts.len()
        invariant
            i <= parts@.len(),
            out@ == slashed(views(parts@).take(i as int)),
        decreases parts@.len() - i,
    {
        proof {
            let seen = views(parts@).take(i + 1);
            assert(seen.drop_last() =~= views(parts@).take(i as int));
            assert(seen.last() == parts@[i as int]@);
        }
        out.push('/');
        out.append(parts[i].as_str());
        i = i + 1;
    }
    proof {
        assert(views(parts@).take(i as int) =~= views(parts@));
    }
    out
}

/// Brings a path into its normal form: no white space around it, single slashes,
/// none at the end.
pub fn normalize_path(path: &str) -> (out: Result<String, SdkError>)
    ensures
        match out {
            Ok(p) => normalized(path@) == Ok::<Seq<char>, ErrorView>(p@),
            Err(e) => normalized(path@) == Err::<Seq<char>, ErrorView>(e@),
        },
{
    let t = trim(path);
    if t.as_str().is_empty() {
        return Err(refused("/", "invalid_path", "Path must not be empty."));
    }
    let chars = chars_of(t.as_str());
    if chars[0] != '/' {
        return Err(refused(t.as_str(), "invalid_path", "Path must start with '/'."));
    }
    let parts = split_segments(t.as_str());
    if parts.len() == 0 {
        return Ok(owned("/"));
    }
    Ok(slash(&parts))
}

fn unsupported_path(path: &str) -> (e: SdkError)
    ensures
        e@ == path_fault(
            path@,
            "invalid_path"@,
            "Unsupported path. Expected /action/... or /collection/... according to the virtual filesystem contract."@,
        ),
{
    refused(
        path,
        "invalid_path",
        "Unsupported path. Expected /action/... or /collection/... according to the virtual filesystem contract.",
    )
}

fn read_entry_index(segment: &str, suffix: usize) -> (out: Option<usize>)
    requires
        8 + suffix <= segment@.len(),
    ensures
        match out {
            Some(n) => unsigned_value(
                segment@.subrange(8, segment@.len() - suffix),
                usize::MAX as nat,
            ) == Some(n as nat),
            None => unsigned_value(
                segment@.subrange(8, segment@.len() - suffix),
                usize::MAX as nat,
            ) is None,
        },
{
    let chars = chars_of(segment);
    let digits = text_of(&chars, 8, chars.len() - suffix);
    match parse_unsigned(digits.as_str(), usize::MAX as u64) {
        Some(n) => Some(n as usize),
        None => None,
    }
}

fn parse_entry_path(path: &str, collection: &str, thing: &str, segment: &str) -> (out: Result<
    VirtualPath,
    SdkError,
>)
    requires
        starts_with(segment@, "entries."@),
    ensures
        match out {
            Ok(p) => entry_path(path@, collection@, thing@, segment@) == Ok::<PathView, ErrorView>(
                p@,
            ),
            Err(e) => entry_path(path@, collection@, thing@, segment@) == Err::<
                PathView,
                ErrorView,
            >(e@),
        },
{
    proof {
        reveal_strlit("entries.");
        reveal_strlit(".data.json");
        reveal_strlit(".schema.json");
    }
    let len: usize = chars_of(segment).len();
    if has_suffix(segment, ".data.json") && len >= 18 {
        match read_entry_index(segment, 10) {
            Some(index) => Ok(
                VirtualPath::ThingEntryData {
                    collection_uuid: owned(collection),
                    thing_uuid: owned(thing),
                    index,
                },
            ),
            None => Err(
                refused(
                    path,
                    "invalid_entry_index",
                    "entries.{idx}.data.json must use a non-negative integer index.",
                ),
            ),
        }
    } else if has_suffix(segment, ".schema.json") && len >= 20 {
        match read_entry_index(segment, 12) {
            Some(index) => Ok(
                VirtualPath::ThingEntrySchema {
                    collection_uuid: owned(collection),
                    thing_uuid: owned(thing),
                    index,
                },
            ),
            None => Err(
                refused(
                    path,
                    "invalid_entry_index",
                    "entries.{idx}.schema.json must use a non-negative integer index.",
                ),
            ),
        }
    } else {
        match read_entry_index(segment, 0) {
            Some(index) => Ok(
                VirtualPath::ThingEntry {
                    collection_uuid: owned(collection),
                    thing_uuid: owned(thing),
                    index,
                },
            ),
            None => Err(
                refused(
                    path,
                    "invalid_entry_index",
                    "entries.{idx} must end with a non-negative integer index.",
                ),
            ),
        }
    }
}

fn parse_action_path(path: &str, parts: &Vec<String>) -> (out: Result<VirtualPath, SdkError>)
    requires
        views(parts@) == segments(path@),
        path@ != "/"@,
        parts@.len() >= 1,
        parts@[0]@ == "action"@,
    ensures
        match out {
            Ok(p) => parsed(path@) == Ok::<PathView, ErrorView>(p@),
            Err(e) => parsed(path@) == Err::<PathView, ErrorView>(e@),
        },
{
    proof {
        assert(forall|i: int|
            0 <= i < parts@.len() ==> #[trigger] segments(path@)[i] == parts@[i]@);
    }
    if parts.len() == 1 {
        return Ok(VirtualPath::ActionRoot);
    }
    let action_uuid = parts[1].clone();
    if parts.len() == 2 {
        return Ok(VirtualPath::ActionDir { action_uuid });
    }
    if parts.len() != 3 {
        return Err(unsupported_path(path));
    }
    let file = parts[2].as_str();
    if same(file, "name") {
        Ok(VirtualPath::ActionName { action_uuid })
    } else if same(file, "metadata.json") {
        Ok(VirtualPath::ActionMetadata { action_uuid })
    } else if same(file, "input.schema.json") {
        Ok(VirtualPath::ActionInputSchema { action_uuid })
    } else if same(file, "output.schema.json") {
        Ok(VirtualPath::ActionOutputSchema { action_uuid })
    } else if same(file, "script.js") {
        Ok(VirtualPath::ActionScript { action_uuid })
    } else if same(file, "latest-invocation.json") {
        Ok(VirtualPath::ActionLatestInvocation { action_uuid })
    } else {
        Err(unsupported_path(path))
    }
}

fn parse_collection_path(path: &str, parts: &Vec<String>) -> (out: Result<VirtualPath, SdkError>)
    requires
        views(parts@) == segments(path@),
        path@ != "/"@,
        parts@.len() >= 1,
        parts@[0]@ == "collection"@,
    ensures
        match out {
            Ok(p) => parsed(path@) == Ok::<PathView, ErrorView>(p@),
            Err(e) => parsed(path@) == Err::<PathView, ErrorView>(e@),
        },
{
    proof {
        assert(forall|i: int|
            0 <= i < parts@.len() ==> #[trigger] segments(path@)[i] == parts@[i]@);
        reveal_strlit("action");
        reveal_strlit("collection");
        assert("action"@.len() != "collection"@.len());
    }
    if parts.len() == 1 {
        return Ok(VirtualPath::CollectionRoot);
    }
    let collection_uuid = parts[1].clone();
    if parts.len() == 2 {
        return Ok(VirtualPath::CollectionDir { collection_uuid });
    }
    if parts.len() == 3 {
        let file = parts[2].as_str();
        return if same(file, "name") {
            Ok(VirtualPath::CollectionName { collection_uuid })
        } else if same(file, "card.jsx") {
            Ok(VirtualPath::CollectionCardJsx { collection_uuid })
        } else if same(file, "actions.json") {
            Ok(VirtualPath::CollectionActions { collection_uuid })
        } else if same(file, "things") {
            Ok(VirtualPath::CollectionThingsDir { collection_uuid })
        } else {
            Err(unsupported_path(path))
        };
    }
    if parts.len() > 5 || !same(parts[2].as_str(), "things") {
        return Err(unsupported_path(path));
    }
    let thing_uuid = parts[3].clone();
    if parts.len() == 4 {
        return Ok(VirtualPath::ThingDir { collection_uuid, thing_uuid });
    }
    let file = parts[4].as_str();
    if same(file, "name") {
        Ok(VirtualPath::ThingName { collection_uuid, thing_uuid })
    } else if same(file, "actions.json") {
        Ok(VirtualPath::ThingActions { collection_uuid, thing_uuid })
    } else if same(file, "status") {
        Ok(VirtualPath::ThingStatus { collection_uuid, thing_uuid })
    } else if same(file, "content.md") {
        Ok(VirtualPath::ThingContent { collection_uuid, thing_uuid })
    } else if has_prefix(file, "entries.") {
        parse_entry_path(path, collection_uuid.as_str(), thing_uuid.as_str(), file)
    } else if same(file, "things") {
        Ok(VirtualPath::ThingChildrenDir { collection_uuid, thing_uuid })
    } else {
        Err(unsupported_path(path))
    }
}

fn parse_trigger_path(path: &str, parts: &Vec<String>) -> (out: Result<VirtualPath, SdkError>)
    requires
        views(parts@) == segments(path@),
        path@ != "/"@,
        parts@.len() >= 1,
        parts@[0]@ == "trigger"@,
    ensures
        match out {
            Ok(p) => parsed(path@) == Ok::<PathView, ErrorView>(p@),
            Err(e) => parsed(path@) == Err::<PathView, ErrorView>(e@),
        },
{
    proof {
        assert(forall|i: int|
            0 <= i < parts@.len() ==> #[trigger] segments(path@)[i] == parts@[i]@);
        reveal_strlit("action");
        reveal_strlit("collection");
        reveal_strlit("trigger");
        assert("trigger"@.len() != "action"@.len());
        assert("trigger"@.len() != "collection"@.len());
    }
    if parts.len() == 2 {
        return Ok(VirtualPath::TriggerDir { trigger_uuid: parts[1].clone() });
    }
    if parts.len() == 3 && same(parts[2].as_str(), "action.json") {
        return Ok(VirtualPath::TriggerAction { trigger_uuid: parts[1].clone() });
    }
    Err(unsupported_path(path))
}

/// Reads a path.
pub fn parse_virtual_path(path: &str) -> (out: Result<VirtualPath, SdkError>)
    ensures
        match out {
            Ok(p) => parsed(path@) == Ok::<PathView, ErrorView>(p@),
            Err(e) => parsed(path@) == Err::<PathView, ErrorView>(e@),
        },
{
    if same(path, "/") {
        return Ok(VirtualPath::Root);
    }
    let parts = split_segments(path);
    proof {
        assert(segments(path@).len() == parts@.len());
        if parts@.len() > 0 {
            assert(segments(path@)[0] == parts@[0]@);
        }
    }
    if parts.len() == 0 {
        return Err(unsupported_path(path));
    }
    if same(parts[0].as_str(), "action") {
        parse_action_path(path, &parts)
    } else if same(parts[0].as_str(), "collection") {
        parse_collection_path(path, &parts)
    } else if same(parts[0].as_str(), "trigger") {
        parse_trigger_path(path, &parts)
    } else {
        Err(unsupported_path(path))
    }
}

fn parts_of(list: Vec<&str>) -> (out: Vec<String>)
    ensures
        views(out@) == list@.map_values(|s: &str| s@),
{
    let mut out: Vec<String> = Vec::new();
    let mut i: usize = 0;
    while i < list.len()
        invariant
            i <= list@.len(),
            out@.len() == i,
            forall|k: int| 0 <= k < i ==> (#[trigger] out@[k])@ == list@[k]@,
        decreases list@.len() - i,
    {
        out.push(owned(list[i]));
        i = i + 1;
    }
    proof {
        assert(views(out@) =~= list@.map_values(|s: &str| s@));
    }
    out
}

fn action_parts(action_uuid: &String, file: &str) -> (out: Vec<String>)
    ensures
        views(out@) == seq!["action"@, action_uuid@, file@],
{
    let out = parts_of(vec!["action", action_uuid.as_str(), file]);
    proof {
        assert(views(out@) =~= seq!["action"@, action_uuid@, file@]);
    }
    out
}

fn collection_parts(collection_uuid: &String, file: &str) -> (out: Vec<String>)
    ensures
        views(out@) == seq!["collection"@, collection_uuid@, file@],
{
    let out = parts_of(vec!["collection", collection_uuid.as_str(), file]);
    proof {
        assert(views(out@) =~= seq!["collection"@, collection_uuid@, file@]);
    }
    out
}

fn thing_parts(collection_uuid: &String, thing_uuid: &String, file: &str) -> (out: Vec<String>)
    ensures
        views(out@) == seq!["collection"@, collection_uuid@, "things"@, thing_uuid@].push(file@),
{
    let out = parts_of(
        vec!["collection", collection_uuid.as_str(), "things", thing_uuid.as_str(), file],
    );
    proof {
        assert(views(out@) =~= seq!["collection"@, collection_uuid@, "things"@, thing_uuid@].push(
            file@,
        ));
    }
    out
}

/// The last part of the path of a content entry.
pub fn entry_file(index: usize, suffix: &str) -> (out: String)
    ensures
        out@ == "entries."@ + decimal(index as nat) + suffix@,
{
    let digits = decimal_text(index as u64);
    cat3("entries.", digits.as_str(), suffix)
}

/// Writes a path.
pub fn display_path(path: &VirtualPath) -> (out: String)
    ensures
        out@ == displayed(path@),
{
    let parts: Vec<String> = match path {
        VirtualPath::Root => return owned("/"),
        VirtualPath::ActionRoot => {
            let out = parts_of(vec!["action"]);
            proof {
                assert(views(out@) =~= seq!["action"@]);
            }
            out
        },
        VirtualPath::ActionDir { action_uuid } => {
            let out = parts_of(vec!["action", action_uuid.as_str()]);
            proof {
                assert(views(out@) =~= seq!["action"@, action_uuid@]);
            }
            out
        },
        VirtualPath::ActionName { action_uuid } => action_parts(action_uuid, "name"),
        VirtualPath::ActionMetadata { action_uuid } => action_parts(action_uuid, "metadata.json"),
        VirtualPath::ActionInputSchema { action_uuid } => action_parts(
            action_uuid,
            "input.schema.json",
        ),
        VirtualPath::ActionOutputSchema { action_uuid } => action_parts(
            action_uuid,
            "output.schema.json",
        ),
        VirtualPath::ActionScript { action_uuid } => action_parts(action_uuid, "script.js"),
        VirtualPath::ActionLatestInvocation { action_uuid } => action_parts(
            action_uuid,
            "latest-invocation.json",
        ),
        VirtualPath::CollectionRoot => {
            let out = parts_of(vec!["collection"]);
            proof {
                assert(views(out@) =~= seq!["collection"@]);
            }
            out
        },
        VirtualPath::CollectionDir { collection_uuid } => {
            let out = parts_of(vec!["collection", collection_uuid.as_str()]);
            proof {
                assert(views(out@) =~= seq!["collection"@, collection_uuid@]);
            }
            out
        },
        VirtualPath::CollectionName { collection_uuid } => collection_parts(
            collection_uuid,
            "name",
        ),
        VirtualPath::CollectionCardJsx { collection_uuid } => collection_parts(
            collection_uuid,
            "card.jsx",
        ),
        VirtualPath::CollectionActions { collection_uuid } => collection_parts(
            collection_uuid,
            "actions.json",
        ),
        VirtualPath::CollectionThingsDir { collection_uuid } => collection_parts(
            collection_uuid,
            "things",
        ),
        VirtualPath::ThingDir { collection_uuid, thing_uuid } => {
            let out = parts_of(
                vec!["collection", collection_uuid.as_str(), "things", thing_uuid.as_str()],
            );
            proof {
                assert(views(out@) =~= seq![
                    "collection"@,
                    collection_uuid@,
                    "things"@,
                    thing_uuid@,
                ]);
            }
            out
        },
        VirtualPath::ThingName { collection_uuid, thing_uuid } => thing_parts(
            collection_uuid,
            thing_uuid,
            "name",
        ),
        VirtualPath::ThingActions { collection_uuid, thing_uuid } => thing_parts(
            collection_uuid,
            thing_uuid,
            "actions.json",
        ),
        VirtualPath::ThingStatus { collection_uuid, thing_uuid } => thing_parts(
            collection_uuid,
            thing_uuid,
            "status",
        ),
        VirtualPath::ThingContent { collection_uuid, thing_uuid } => thing_parts(
            collection_uuid,
            thing_uuid,
            "content.md",
        ),
        VirtualPath::ThingEntry { collection_uuid, thing_uuid, index } => {
            let digits = decimal_text(*index as u64);
            let file = cat("entries.", digits.as_str());
            thing_parts(collection_uuid, thing_uuid, file.as_str())
        },
        VirtualPath::ThingEntryData { collection_uuid, thing_uuid, index } => {
            let file = entry_file(*index, ".data.json");
            thing_parts(collection_uuid, thing_uuid, file.as_str())
        },
        VirtualPath::ThingEntrySchema { collection_uuid, thing_uuid, index } => {
            let file = entry_file(*index, ".schema.json");
            thing_parts(collection_uuid, thing_uuid, file.as_str())
        },
        VirtualPath::ThingChildrenDir { collection_uuid, thing_uuid } => thing_parts(
            collection_uuid,
            thing_uuid,
            "things",
        ),
        VirtualPath::TriggerDir { trigger_uuid } => {
            let out = parts_of(vec!["trigger", trigger_uuid.as_str()]);
            proof {
                assert(views(out@) =~= seq!["trigger"@, trigger_uuid@]);
            }
            out
        },
        VirtualPath::TriggerAction { trigger_uuid } => {
            let out = parts_of(vec!["trigger", trigger_uuid.as_str(), "action.json"]);
            proof {
                assert(views(out@) =~= seq!["trigger"@, trigger_uuid@, "action.json"@]);
            }
            out
        },
    };
    slash(&parts)
}

proof fn lemma_segments_append(before: Seq<char>, part: Seq<char>)
    requires
        plain_part(part),
    ensures
        segments(before.push('/') + part) == segments(before).push(part),
    decreases part.len(),
{
    let whole = before.push('/') + part;
    let n = whole.len();
    if part.len() == 1 {
        assert(whole.drop_last() =~= before.push('/'));
        assert(before.push('/').drop_last() =~= before);
        assert(whole[n - 2] == '/');
        assert(whole.last() == part[0]);
        assert(part =~= seq![whole.last()]);
        assert(segments(before.push('/')) == segments(before));
        assert(segments(whole) == segments(before.push('/')).push(seq![whole.last()]));
    } else {
        let front = part.drop_last();
        lemma_segments_append(before, front);
        assert(whole.drop_last() =~= before.push('/') + front);
        assert(whole[n - 2] == part[part.len() - 2]);
        assert(whole.last() == part[part.len() - 1]);
        let list = segments(before).push(front);
        assert(list.last() == front);
        assert(front.push(whole.last()) =~= part);
        assert(list.update(list.len() - 1, part) =~= segments(before).push(part));
    }
}

/// The parts of a written path are the parts it was written from.
pub proof fn lemma_segments_slashed(parts: Seq<Seq<char>>)
    requires
        forall|i: int| 0 <= i < parts.len() ==> plain_part(#[trigger] parts[i]),
    ensures
        segments(slashed(parts)) == parts,
    decreases parts.len(),
{
    if parts.len() > 0 {
        lemma_segments_slashed(parts.drop_last());
        assert(plain_part(parts[parts.len() - 1]));
        lemma_segments_append(slashed(parts.drop_last()), parts.last());
        assert(parts.drop_last().push(parts.last()) =~= parts);
    }
}

/// Every part of a path stands between slashes.
pub proof fn lemma_segments_plain(s: Seq<char>)
    ensures
        forall|i: int| 0 <= i < segments(s).len() ==> plain_part(#[trigger] segments(s)[i]),
    decreases s.len(),
{
    if s.len() > 0 {
        lemma_segments_plain(s.drop_last());
        let before = segments(s.drop_last());
        assert forall|i: int| 0 <= i < segments(s).len() implies plain_part(
            #[trigger] segments(s)[i],
        ) by {
            if s.last() != '/' {
                if i == segments(s).len() - 1 {
                    let part = segments(s)[i];
                    if s.len() >= 2 && s[s.len() - 2] != '/' && before.len() > 0 {
                        assert(plain_part(before[before.len() - 1]));
                        assert(part == before.last().push(s.last()));
                    } else {
                        assert(part == seq![s.last()]);
                    }
                } else {
                    assert(segments(s)[i] == before[i]);
                }
            } else {
                assert(segments(s)[i] == before[i]);
            }
        }
    }
}

proof fn lemma_entry_part(index: nat, suffix: Seq<char>)
    requires
        index <= usize::MAX,
        forall|i: int| 0 <= i < suffix.len() ==> suffix[i] != '/',
    ensures
        plain_part("entries."@ + decimal(index) + suffix),
        starts_with("entries."@ + decimal(index) + suffix, "entries."@),
        ends_with("entries."@ + decimal(index) + suffix, suffix),
        ("entries."@ + decimal(index) + suffix).len() > 8 + suffix.len(),
        entry_index("entries."@ + decimal(index) + suffix, suffix) == Some(index),
{
    reveal_strlit("entries.");
    lemma_decimal_value(index);
    let digits = decimal(index);
    let whole = "entries."@ + digits + suffix;
    assert(whole.subrange(8, whole.len() - suffix.len()) =~= digits);
    assert(is_digit(digits[0]));
    assert(unsigned_digits(digits) == digits);
    assert(whole.take(8) =~= "entries."@);
    assert(whole.skip(whole.len() - suffix.len()) =~= suffix);
    assert forall|i: int| 0 <= i < whole.len() implies whole[i] != '/' by {
        if i >= 8 && i < 8 + digits.len() {
            assert(is_digit(digits[i - 8]));
        }
    }
}

/// Reading a written path gives the path back.
pub proof fn law_parse_displayed(path: PathView)
    requires
        plain_path(path),
    ensures
        parsed(displayed(path)) == Ok::<PathView, ErrorView>(path),
{
    reveal_strlit("/");
    reveal_strlit("action");
    reveal_strlit("name");
    reveal_strlit("metadata.json");
    reveal_strlit("input.schema.json");
    reveal_strlit("output.schema.json");
    reveal_strlit("script.js");
    reveal_strlit("latest-invocation.json");
    reveal_strlit("collection");
    reveal_strlit("card.jsx");
    reveal_strlit("actions.json");
    reveal_strlit("things");
    reveal_strlit("status");
    reveal_strlit("content.md");
    reveal_strlit("entries.");
    reveal_strlit(".data.json");
    reveal_strlit(".schema.json");
    reveal_strlit("trigger");
    reveal_strlit("action.json");
    let parts = path_parts(path);
    if path is Root {
        assert("/"@ =~= displayed(path));
    } else {
        match path {
            PathView::Thing { collection, thing, file } => match file {
                ThingFile::Entry(index) => {
                    lemma_entry_part(index, Seq::empty());
                    assert("entries."@ + decimal(index) + Seq::<char>::empty() =~= "entries."@
                        + decimal(index));
                },
                ThingFile::EntryData(index) => lemma_entry_part(index, ".data.json"@),
                ThingFile::EntrySchema(index) => lemma_entry_part(index, ".schema.json"@),
                _ => {},
            },
            _ => {},
        }
        assert forall|i: int| 0 <= i < parts.len() implies plain_part(#[trigger] parts[i]) by {}
        lemma_segments_slashed(parts);
        let s = segments(slashed(parts));
        assert(s == parts);
        assert(slashed(parts).len() > 1) by {
            assert(parts.last().len() > 0) by {
                assert(plain_part(parts[parts.len() - 1]));
            }
        }
        assert(displayed(path) != "/"@);
        assert("action"@[0] != "collection"@[0]);
        assert("trigger"@[0] != "collection"@[0] && "trigger"@[0] != "action"@[0]);
        match path {
            PathView::Action { action, file } => {
                assert("name"@.len() == 4 && "metadata.json"@.len() == 13);
                assert("input.schema.json"@.len() == 17 && "output.schema.json"@.len() == 18);
                assert("script.js"@.len() == 9 && "latest-invocation.json"@.len() == 22);
            },
            PathView::Collection { collection, file } => {
                assert("name"@.len() == 4 && "card.jsx"@.len() == 8);
                assert("actions.json"@.len() == 12 && "things"@.len() == 6);
            },
            PathView::Thing { collection, thing, file } => {
                assert("name"@[0] == 'n' && "actions.json"@[0] == 'a');
                assert("status"@[0] == 's' && "content.md"@[0] == 'c' && "things"@[0] == 't');
                assert("entries."@[0] == 'e');
                if s.len() == 5 {
                    assert(starts_with(s[4], "entries."@) ==> s[4][0] == 'e') by {
                        if starts_with(s[4], "entries."@) {
                            assert(s[4].take(8)[0] == s[4][0]);
                        }
                    }
                }
                match file {
                    ThingFile::Entry(index) => lemma_entry_suffixes(index),
                    ThingFile::EntrySchema(index) => lemma_schema_is_not_data(index),
                    _ => {},
                }
            },
            _ => {},
        }
    }
}

proof fn lemma_entry_suffixes(index: nat)
    ensures
        !ends_with("entries."@ + decimal(index), ".data.json"@) || ("entries."@ + decimal(
            index,
        )).len() < 18,
        !ends_with("entries."@ + decimal(index), ".schema.json"@) || ("entries."@ + decimal(
            index,
        )).len() < 20,
{
    reveal_strlit("entries.");
    reveal_strlit(".data.json");
    reveal_strlit(".schema.json");
    lemma_decimal_value(index);
    let whole = "entries."@ + decimal(index);
    let last = whole[whole.len() - 1];
    assert(last == decimal(index)[decimal(index).len() - 1]);
    assert(is_digit(last));
    if ends_with(whole, ".data.json"@) {
        assert(whole.skip(whole.len() - 10)[9] == last);
        assert(".data.json"@[9] == 'n');
    }
    if ends_with(whole, ".schema.json"@) {
        assert(whole.skip(whole.len() - 12)[11] == last);
        assert(".schema.json"@[11] == 'n');
    }
}

proof fn lemma_schema_is_not_data(index: nat)
    ensures
        !ends_with("entries."@ + decimal(index) + ".schema.json"@, ".data.json"@),
{
    reveal_strlit("entries.");
    reveal_strlit(".data.json");
    reveal_strlit(".schema.json");
    let whole = "entries."@ + decimal(index) + ".schema.json"@;
    if ends_with(whole, ".data.json"@) {
        assert(whole.skip(whole.len() - 10)[4] == ".schema.json"@[6]);
        assert(".schema.json"@[6] == 'a');
        assert(whole.skip(whole.len() - 10)[3] == ".schema.json"@[5]);
        assert(".schema.json"@[5] == 'm' && ".data.json"@[3] == 't');
    }
}

/// Bringing a normal path into its normal form again changes nothing, where its
/// last part does not end in white space.
pub proof fn law_normalize_is_idempotent(path: Seq<char>)
    requires
        normalized(path) is Ok,
        segments(trimmed(path)).len() > 0 ==> !is_space(segments(trimmed(path)).last().last()),
    ensures
        normalized(normalized(path)->Ok_0) == normalized(path),
{
    reveal_strlit("/");
    let n = normalized(path)->Ok_0;
    let s = segments(trimmed(path));
    lemma_segments_plain(trimmed(path));
    if s.len() == 0 {
        assert(n[0] == '/');
        assert(trimmed_start(n) == n);
        assert(trimmed_end(n) == n);
        assert(n.drop_last() =~= Seq::<char>::empty());
        assert(segments(n.drop_last()).len() == 0);
    } else {
        lemma_segments_slashed(s);
        lemma_slashed_first(s);
        assert(plain_part(s[s.len() - 1]));
        assert(n.last() == s.last().last());
        assert(trimmed_start(n) == n);
        assert(trimmed_end(n) == n);
    }
}

proof fn lemma_slashed_first(parts: Seq<Seq<char>>)
    requires
        parts.len() > 0,
    ensures
        slashed(parts).len() > 0,
        slashed(parts)[0] == '/',
    decreases parts.len(),
{
    if parts.len() > 1 {
        lemma_slashed_first(parts.drop_last());
    } else {
        assert(slashed(parts.drop_last()) =~= Seq::<char>::empty());
    }
}

} // verus!
