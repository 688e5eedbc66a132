//! The configuration mutator: a JSON document that is read from text, patched
//! at a property path, and written back as text.
//!
//! A property path is a sequence of object keys. Patching walks the path from
//! the root, makes the objects that are missing on the way, and replaces the
//! value at the end. It refuses the empty path, and a path that runs through a
//! value that is there and is not an object. A refused patch changes nothing.

use crate::codec::{parse_document, parsed, render_document, rendered, ParseFailure};
use crate::json::{
    copy_members, entries_view, find_member, last_index_of, lemma_map_of, lemma_map_of_push,
    lemma_map_of_update, map_of, Json, JsonView, Member,
};
use crate::storage::{atomic_replace, replace_steps, steps_view, FileOp};
use crate::text::join;
use vstd::prelude::*;

verus! {

/// Why a document cannot be patched at a path.
#[derive(Clone, Copy, Debug, PartialEq, Eq)]
pub enum PathError {
    /// The path has no key.
    Empty,
    /// A value on the way is there and is not an object.
    NotAnObject,
}

/// Why a configuration operation failed.
#[derive(Debug, PartialEq, Eq)]
pub enum ConfigError {
    /// The text is not JSON.
    Parse(ParseFailure),
    /// The document has not the shape that the path asks for.
    Path(PathError),
}

/// The words for a refused path.
pub open spec fn path_error_message(e: PathError) -> Seq<char> {
    match e {
        PathError::Empty => "属性路径为空"@,
        PathError::NotAnObject => "属性路径上的值不是对象"@,
    }
}

/// The words for a failed configuration operation. A parse failure carries
/// the parser's own message.
pub open spec fn config_error_message(e: ConfigError) -> Seq<char> {
    match e {
        ConfigError::Parse(failure) => "配置不是有效的 JSON: "@ + failure.detail@,
        ConfigError::Path(fault) => path_error_message(fault),
    }
}

impl PathError {
    /// The reason in words.
    pub fn message(&self) -> (text: String)
        ensures
            text@ == path_error_message(*self),
    {
        match self {
            PathError::Empty => "属性路径为空".to_owned(),
            PathError::NotAnObject => "属性路径上的值不是对象".to_owned(),
        }
    }
}

impl ConfigError {
    /// The reason in words.
    pub fn message(&self) -> (text: String)
        ensures
            text@ == config_error_message(*self),
    {
        match self {
            ConfigError::Parse(failure) => join("配置不是有效的 JSON: ", failure.detail.as_str()),
            ConfigError::Path(fault) => fault.message(),
        }
    }
}

/// The keys of a path, each as a sequence of characters.
pub open spec fn keys_view(path: Seq<String>) -> Seq<Seq<char>> {
    Seq::new(path.len(), |i: int| path[i]@)
}

impl JsonView {
    /// Whether walking `path` meets a value that is there and is not an object
    /// before the path's last key is reached.
    pub open spec fn blocked(self, path: Seq<Seq<char>>) -> bool
        decreases path.len(),
    {
        if path.len() == 0 {
            false
        } else {
            match self {
                JsonView::Object(m) => m.dom().contains(path[0]) && m[path[0]].blocked(
                    path.drop_first(),
                ),
                _ => true,
            }
        }
    }

    /// The reason for which a patch at `path` is refused, if it is.
    pub open spec fn fault(self, path: Seq<Seq<char>>) -> Option<PathError> {
        if path.len() == 0 {
            Some(PathError::Empty)
        } else if self.blocked(path) {
            Some(PathError::NotAnObject)
        } else {
            None
        }
    }

    /// The document with `value` at `path`: every object on the way keeps its
    /// other members, and an object that is missing on the way is made.
    pub open spec fn put(self, path: Seq<Seq<char>>, value: JsonView) -> JsonView
        decreases path.len(),
    {
        if path.len() == 0 {
            value
        } else {
            let members = match self {
                JsonView::Object(m) => m,
                _ => Map::empty(),
            };
            let child = if members.dom().contains(path[0]) {
                members[path[0]]
            } else {
                JsonView::empty_object()
            };
            JsonView::Object(members.insert(path[0], child.put(path.drop_first(), value)))
        }
    }
}

/// A patch is read back: the value at the patched path is the one that was set.
pub proof fn lemma_put_then_get(doc: JsonView, path: Seq<Seq<char>>, value: JsonView)
    ensures
        doc.put(path, value).get(path) == Some(value),
    decreases path.len(),
{
    if path.len() > 0 {
        let members = match doc {
            JsonView::Object(m) => m,
            _ => Map::empty(),
        };
        let child = if members.dom().contains(path[0]) {
            members[path[0]]
        } else {
            JsonView::empty_object()
        };
        lemma_put_then_get(child, path.drop_first(), value);
    }
}

/// A patch leaves the members under every other top-level key as they were.
pub proof fn lemma_put_keeps_others(
    doc: JsonView,
    path: Seq<Seq<char>>,
    value: JsonView,
    other: Seq<char>,
)
    requires
        doc is Object,
        path.len() > 0,
        path[0] != other,
    ensures
        doc.put(path, value).member(other) == doc.member(other),
{
}

/// A patch leaves every value elsewhere as it was: where another path parts
/// from the patched one at some key, the walk along it reaches what it reached
/// before.
pub proof fn lemma_put_keeps_elsewhere(
    doc: JsonView,
    path: Seq<Seq<char>>,
    value: JsonView,
    other: Seq<Seq<char>>,
    parting: int,
)
    requires
        !doc.blocked(path),
        0 <= parting < path.len(),
        parting < other.len(),
        path.take(parting) == other.take(parting),
        path[parting] != other[parting],
    ensures
        doc.put(path, value).get(other) == doc.get(other),
    decreases parting,
{
    if parting > 0 {
        let key = path[0];
        assert(path.take(parting)[0] == other.take(parting)[0]);
        let rest = path.drop_first();
        let other_rest = other.drop_first();
        assert(rest.take(parting - 1) =~= path.take(parting).drop_first());
        assert(other_rest.take(parting - 1) =~= other.take(parting).drop_first());
        let members = doc->Object_0;
        let child = if members.dom().contains(key) {
            members[key]
        } else {
            JsonView::empty_object()
        };
        lemma_put_keeps_elsewhere(child, rest, value, other_rest, parting - 1);
    }
}

/// A patched document can be patched at the same path again.
pub proof fn lemma_put_is_not_blocked(doc: JsonView, path: Seq<Seq<char>>, value: JsonView)
    ensures
        !doc.put(path, value).blocked(path),
    decreases path.len(),
{
    if path.len() > 0 {
        let members = match doc {
            JsonView::Object(m) => m,
            _ => Map::empty(),
        };
        let child = if members.dom().contains(path[0]) {
            members[path[0]]
        } else {
            JsonView::empty_object()
        };
        lemma_put_is_not_blocked(child, path.drop_first(), value);
    }
}

/// Where a walk reaches a value, a patch at the same path is not refused for
/// the document's shape.
pub proof fn lemma_reached_is_not_blocked(doc: JsonView, path: Seq<Seq<char>>)
    requires
        doc.get(path) is Some,
    ensures
        !doc.blocked(path),
    decreases path.len(),
{
    if path.len() > 0 {
        lemma_reached_is_not_blocked(doc->Object_0[path[0]], path.drop_first());
    }
}

/// Of two patches at one path the later counts.
pub proof fn lemma_put_twice(doc: JsonView, path: Seq<Seq<char>>, first: JsonView, second: JsonView)
    ensures
        doc.put(path, first).put(path, second) == doc.put(path, second),
    decreases path.len(),
{
    if path.len() > 0 {
        let members = match doc {
            JsonView::Object(m) => m,
            _ => Map::empty(),
        };
        let child = if members.dom().contains(path[0]) {
            members[path[0]]
        } else {
            JsonView::empty_object()
        };
        let rest = path.drop_first();
        lemma_put_twice(child, rest, first, second);
        assert(members.insert(path[0], child.put(rest, first)).insert(
            path[0],
            child.put(rest, second),
        ) =~= members.insert(path[0], child.put(rest, second)));
    }
}

/// Setting a path to the value that it holds changes nothing.
pub proof fn lemma_put_same(doc: JsonView, path: Seq<Seq<char>>, value: JsonView)
    requires
        doc.get(path) == Some(value),
    ensures
        doc.put(path, value) == doc,
    decreases path.len(),
{
    if path.len() > 0 {
        let members = doc->Object_0;
        let child = members[path[0]];
        lemma_put_same(child, path.drop_first(), value);
        assert(members.insert(path[0], child) =~= members);
    }
}

/// The members of an object with one member set: replaced where the key is
/// there, appended where it is not.
fn with_member(members: &Vec<Member>, found: Option<usize>, key: &String, value: Json) -> (out:
    Vec<Member>)
    requires
        match found {
            Some(i) => i < members.len() && last_index_of(entries_view(members@), key@) == Some(
                i as int,
            ),
            None => last_index_of(entries_view(members@), key@) is None,
        },
    ensures
        map_of(entries_view(out@)) == map_of(entries_view(members@)).insert(key@, value@),
{
    let ghost set = value@;
    let mut out = copy_members(members);
    let member = Member { key: key.clone(), value };
    match found {
        Some(i) => {
            out.set(i, member);
            proof {
                lemma_map_of_update(entries_view(members@), i as int, key@, set);
                assert(entries_view(out@) =~= entries_view(members@).update(
                    i as int,
                    (key@, set),
                ));
            }
        },
        None => {
            out.push(member);
            proof {
                lemma_map_of_push(entries_view(members@), key@, set);
                assert(entries_view(out@) =~= entries_view(members@).push((key@, set)));
            }
        },
    }
    out
}

/// Patches `doc` along the keys of `path` from index `from` on.
fn put_from(doc: &Json, path: &Vec<String>, from: usize, value: Json) -> (r: Result<
    Json,
    PathError,
>)
    requires
        from <= path.len(),
    ensures
        match r {
            Ok(out) => {
                &&& !doc@.blocked(keys_view(path@).skip(from as int))
                &&& out@ == doc@.put(keys_view(path@).skip(from as int), value@)
            },
            Err(e) => e == PathError::NotAnObject && doc@.blocked(
                keys_view(path@).skip(from as int),
            ),
        },
    decreases path.len() - from,
{
    let ghost suffix = keys_view(path@).skip(from as int);
    let ghost set = value@;
    if from == path.len() {
        return Ok(value);
    }
    proof {
        assert(suffix[0] == path[from as int]@);
        assert(suffix.drop_first() =~= keys_view(path@).skip(from + 1));
    }
    match doc {
        Json::Object(members) => {
            let key = &path[from];
            let found = find_member(members, key);
            proof {
                lemma_map_of(entries_view(members@), key@);
            }
            let child = match found {
                Some(i) => put_from(&members[i].value, path, from + 1, value),
                None => {
                    let fresh = Json::Object(Vec::new());
                    assert(fresh@ == JsonView::empty_object()) by {
                        assert(entries_view(Seq::<Member>::empty()).len() == 0);
                    }
                    put_from(&fresh, path, from + 1, value)
                },
            };
            match child {
                Ok(c) => Ok(Json::Object(with_member(members, found, key, c))),
                Err(e) => Err(e),
            }
        },
        _ => Err(PathError::NotAnObject),
    }
}

/// A configuration document held in memory.
pub struct ConfigDocument {
    pub root: Json,
}

impl View for ConfigDocument {
    type V = JsonView;

    open spec fn view(&self) -> JsonView {
        self.root@
    }
}

impl ConfigDocument {
    /// Reads a document from the text of a configuration file.
    ///
    /// Succeeds exactly on the texts that the JSON parser accepts.
    pub fn load(text: &str) -> (r: Result<ConfigDocument, ConfigError>)
        ensures
            match r {
                Ok(doc) => parsed(text@) == Some(doc@),
                Err(e) => parsed(text@) is None && e is Parse,
            },
    {
        match parse_document(text) {
            Ok(root) => Ok(ConfigDocument { root }),
            Err(failure) => Err(ConfigError::Parse(failure)),
        }
    }

    /// The text to write to the configuration file.
    pub fn save(&self) -> (text: String)
        ensures
            text@ == rendered(self@),
    {
        render_document(&self.root)
    }

    /// The steps that write the document to the configuration file at
    /// `target` so that the file is whole at every moment.
    pub fn save_to(&self, target: &str) -> (steps: Vec<FileOp>)
        ensures
            steps_view(steps@) == replace_steps(target@, rendered(self@)),
    {
        atomic_replace(target, self.save())
    }

    /// The value at `path`, if the walk along the path's keys reaches one.
    pub fn get(&self, path: &Vec<String>) -> (r: Option<&Json>)
        ensures
            match r {
                Some(j) => self@.get(keys_view(path@)) == Some(j@),
                None => self@.get(keys_view(path@)) is None,
            },
    {
        let ghost keys = keys_view(path@);
        let mut current: &Json = &self.root;
        let mut i: usize = 0;
        assert(keys.skip(0) =~= keys);
        while i < path.len()
            invariant
                i <= path.len(),
                keys == keys_view(path@),
                self@.get(keys) == current@.get(keys.skip(i as int)),
            decreases path.len() - i,
        {
            proof {
                assert(keys.skip(i as int)[0] == path[i as int]@);
                assert(keys.skip(i as int).drop_first() =~= keys.skip(i + 1));
            }
            match current.member(path[i].as_str()) {
                Some(child) => {
                    current = child;
                },
                None => {
                    return None;
                },
            }
            i += 1;
        }
        Some(current)
    }

    /// Replaces the value at `path`, making the objects that are missing on
    /// the way.
    ///
    /// Refused, with the document unchanged, where the path is empty or runs
    /// through a value that is there and is not an object.
    pub fn modify(&mut self, path: &Vec<String>, value: Json) -> (r: Result<(), PathError>)
        ensures
            match old(self)@.fault(keys_view(path@)) {
                Some(e) => r == Err::<(), PathError>(e) && final(self)@ == old(self)@,
                None => r is Ok && final(self)@ == old(self)@.put(keys_view(path@), value@),
            },
    {
        if path.len() == 0 {
            return Err(PathError::Empty);
        }
        assert(keys_view(path@).skip(0) =~= keys_view(path@));
        match put_from(&self.root, path, 0, value) {
            Ok(root) => {
                self.root = root;
                Ok(())
            },
            Err(e) => Err(e),
        }
    }
}

} // verus!
