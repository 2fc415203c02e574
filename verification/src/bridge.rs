//! The streams that the bridge serves: which file stands behind which path.

use crate::range::StreamError;
use crate::text::{chars_of, opt_text, split, split_on, string_of, texts};
use slab::Slab;
use vstd::prelude::*;

verus! {

/// A file that is being streamed.
#[derive(Debug, Clone)]
pub struct StreamingFile {
    /// The path under which the file is served.
    pub path: String,
    /// The type of its content.
    pub mime: String,
    /// The number by which the torrent engine knows the torrent.
    pub torrent: u64,
    /// The number of the file in the torrent.
    pub file_id: usize,
}

/// The handle of a stream: the number of its slot in the table of streams.
#[derive(Debug, Clone, Copy, PartialEq, Eq, Structural)]
pub struct StreamId(pub usize);

/// `slab::Slab`: a table that gives each value the number of a free slot.
/// Nothing inside it is seen here; what it holds is named by `slab_entries`.
#[verifier::external_type_specification]
#[verifier::external_body]
#[verifier::reject_recursive_types(T)]
pub struct ExSlab<T>(Slab<T>);

/// The files that a table of streams holds, each under the number of its slot.
pub uninterp spec fn slab_entries(table: Slab<StreamingFile>) -> Map<usize, StreamingFile>;

/// `Slab::new`: a table without entries.
#[verifier::external_body]
fn slab_new() -> (r: Slab<StreamingFile>)
    ensures
        slab_entries(r) == (Map::<usize, StreamingFile>::empty()),
{
    Slab::new()
}

/// `Slab::insert`: the value goes into a slot that held none, and the number
/// of that slot is returned; the other entries stay.
#[verifier::external_body]
fn slab_insert(table: &mut Slab<StreamingFile>, file: StreamingFile) -> (key: usize)
    ensures
        !slab_entries(*old(table)).dom().contains(key),
        slab_entries(*final(table)) == slab_entries(*old(table)).insert(key, file),
{
    table.insert(file)
}

/// `Slab::get`: the value in a slot, `None` where the slot holds none.
#[verifier::external_body]
fn slab_get(table: &Slab<StreamingFile>, key: usize) -> (r: Option<&StreamingFile>)
    ensures
        match r {
            Some(file) => slab_entries(*table).dom().contains(key) && *file == slab_entries(
                *table,
            )[key],
            None => !slab_entries(*table).dom().contains(key),
        },
{
    table.get(key)
}

/// `Slab::try_remove`: takes the value out of a slot and returns it, `None`
/// where the slot holds none; the other entries stay.
#[verifier::external_body]
fn slab_try_remove(table: &mut Slab<StreamingFile>, key: usize) -> (r: Option<StreamingFile>)
    ensures
        match r {
            Some(file) => slab_entries(*old(table)).dom().contains(key) && file == slab_entries(
                *old(table),
            )[key],
            None => !slab_entries(*old(table)).dom().contains(key),
        },
        slab_entries(*final(table)) == slab_entries(*old(table)).remove(key),
{
    table.try_remove(key)
}

/// The type of content that `mime_guess` knows for an extension: the essence
/// of its first guess, or of `application/octet-stream` where it has none, as
/// for the empty extension.
pub uninterp spec fn guessed_mime(extension: Seq<char>) -> Seq<char>;

/// `mime_guess::from_ext`, `MimeGuess::first_or_octet_stream` and
/// `Mime::essence_str`. The guess is looked up in a table by the extension,
/// whatever its case; no file is read.
#[verifier::external_body]
fn guess_mime(extension: &str) -> (r: String)
    ensures
        r@ == guessed_mime(extension@),
{
    mime_guess::from_ext(extension).first_or_octet_stream().essence_str().to_string()
}

/// The last of the first `upto` pieces of a path that names something: not
/// empty and not `.`. None where that piece is `..`, or where there is none.
pub open spec fn last_named(pieces: Seq<Seq<char>>, upto: int) -> Option<Seq<char>>
    decreases upto,
{
    if upto <= 0 || upto > pieces.len() {
        None
    } else if pieces[upto - 1].len() == 0 || pieces[upto - 1] == seq!['.'] {
        last_named(pieces, upto - 1)
    } else if pieces[upto - 1] == seq!['.', '.'] {
        None
    } else {
        Some(pieces[upto - 1])
    }
}

/// The place of the last `.` among the first `upto` characters, -1 where
/// there is none.
pub open spec fn last_dot(name: Seq<char>, upto: int) -> int
    decreases upto,
{
    if upto <= 0 || upto > name.len() {
        -1
    } else if name[upto - 1] == '.' {
        upto - 1
    } else {
        last_dot(name, upto - 1)
    }
}

/// The extension of the file that a path with `/` between its pieces names:
/// what follows the last `.` of the file name. None where the path names no
/// file, where the name has no `.`, and where its only `.` is its first
/// character.
pub open spec fn extension_of(path: Seq<char>) -> Option<Seq<char>> {
    match last_named(split_on(path, '/'), split_on(path, '/').len() as int) {
        Some(name) => {
            let dot = last_dot(name, name.len() as int);
            if dot <= 0 {
                None
            } else {
                Some(name.subrange(dot + 1, name.len() as int))
            }
        },
        None => None,
    }
}

/// The type of content of a file by its name: what is known for its
/// extension, and `application/octet-stream` for a name without one.
pub open spec fn mime_of_name(file_name: Seq<char>) -> Seq<char> {
    match extension_of(file_name) {
        Some(e) => guessed_mime(e),
        None => guessed_mime(Seq::<char>::empty()),
    }
}

/// The extension of the file that a path names.
pub fn file_extension(path: &str) -> (r: Option<String>)
    ensures
        opt_text(r) == extension_of(path@),
{
    let pieces = split(&chars_of(path), '/');
    let ghost texts_of = texts(pieces@);
    let mut upto: usize = pieces.len();
    while upto > 0 && (pieces[upto - 1].len() == 0 || (pieces[upto - 1].len() == 1 && pieces[upto
        - 1][0] == '.'))
        invariant
            upto <= pieces.len(),
            texts_of == texts(pieces@),
            last_named(texts_of, pieces.len() as int) == last_named(texts_of, upto as int),
        decreases upto,
    {
        proof {
            assert(texts_of[upto - 1] == pieces@[upto - 1]@);
            if pieces[upto - 1].len() == 1 {
                assert(pieces@[upto - 1]@ =~= seq!['.']);
            }
        }
        upto -= 1;
    }
    if upto == 0 {
        return None;
    }
    let name = &pieces[upto - 1];
    proof {
        assert(texts_of[upto - 1] == name@);
        if name@.len() == 1 {
            assert(name@ != seq!['.']);
        }
    }
    if name.len() == 2 && name[0] == '.' && name[1] == '.' {
        assert(name@ =~= seq!['.', '.']);
        return None;
    }
    assert(name@ != seq!['.', '.']) by {
        if name@ == seq!['.', '.'] {
            assert(name@.len() == 2 && name@[0] == '.' && name@[1] == '.');
        }
    }
    let mut dot: usize = name.len();
    while dot > 0 && name[dot - 1] != '.'
        invariant
            dot <= name.len(),
            last_dot(name@, name.len() as int) == last_dot(name@, dot as int),
        decreases dot,
    {
        dot -= 1;
    }
    if dot <= 1 {
        return None;
    }
    let mut ext: Vec<char> = Vec::new();
    let mut i: usize = dot;
    while i < name.len()
        invariant
            dot <= i <= name.len(),
            ext@ == name@.subrange(dot as int, i as int),
        decreases name.len() - i,
    {
        ext.push(name[i]);
        i += 1;
    }
    Some(string_of(&ext))
}

/// The stream that a list of routes gives for a path: that of the first route
/// with the path.
pub open spec fn route_in(routes: Seq<(String, StreamId)>, path: Seq<char>) -> Option<StreamId>
    decreases routes.len(),
{
    if routes.len() == 0 {
        None
    } else if routes[0].0@ == path {
        Some(routes[0].1)
    } else {
        route_in(routes.subrange(1, routes.len() as int), path)
    }
}

/// Whether no path has two routes.
pub open spec fn distinct_paths(routes: Seq<(String, StreamId)>) -> bool {
    forall|i: int, j: int|
        0 <= i < j < routes.len() ==> (#[trigger] routes[i]).0@ != (#[trigger] routes[j]).0@
}

/// The route of a path is the one entry that has the path.
pub proof fn lemma_route_in(routes: Seq<(String, StreamId)>, path: Seq<char>)
    requires
        distinct_paths(routes),
    ensures
        match route_in(routes, path) {
            Some(id) => exists|i: int|
                0 <= i < routes.len() && (#[trigger] routes[i]).0@ == path && routes[i].1 == id,
            None => forall|i: int| 0 <= i < routes.len() ==> (#[trigger] routes[i]).0@ != path,
        },
        forall|i: int|
            0 <= i < routes.len() && (#[trigger] routes[i]).0@ == path ==> route_in(routes, path)
                == Some(routes[i].1),
    decreases routes.len(),
{
    if routes.len() > 0 {
        let rest = routes.subrange(1, routes.len() as int);
        assert forall|i: int, j: int| 0 <= i < j < rest.len() implies (#[trigger] rest[i]).0@ != (
        #[trigger] rest[j]).0@ by {
            assert(rest[i] == routes[i + 1] && rest[j] == routes[j + 1]);
        }
        lemma_route_in(rest, path);
        if routes[0].0@ == path {
            assert forall|i: int| 0 <= i < routes.len() && (#[trigger] routes[i]).0@ == path implies i
                == 0 by {}
        } else {
            match route_in(rest, path) {
                Some(id) => {
                    let i = choose|i: int|
                        0 <= i < rest.len() && (#[trigger] rest[i]).0@ == path && rest[i].1 == id;
                    assert(routes[i + 1] == rest[i]);
                },
                None => {
                    assert forall|i: int| 0 <= i < routes.len() implies (#[trigger] routes[i]).0@
                        != path by {
                        if i > 0 {
                            assert(routes[i] == rest[i - 1]);
                        }
                    }
                },
            }
            assert forall|i: int| 0 <= i < routes.len() && (#[trigger] routes[i]).0@ == path implies route_in(
                routes,
                path,
            ) == Some(routes[i].1) by {
                assert(routes[i] == rest[i - 1]);
            }
        }
    }
}

/// The table of the bridge: the streams, and the path of each.
pub struct Rqstream {
    routes: Vec<(String, StreamId)>,
    streaming_files: Slab<StreamingFile>,
}

impl Rqstream {
    /// The files that are being streamed, each under the number of its stream.
    pub closed spec fn files(&self) -> Map<usize, StreamingFile> {
        slab_entries(self.streaming_files)
    }

    /// The stream that a path leads to.
    pub closed spec fn route(&self, path: Seq<char>) -> Option<StreamId> {
        route_in(self.routes@, path)
    }

    /// No path has two routes.
    pub closed spec fn wf(&self) -> bool {
        distinct_paths(self.routes@)
    }

    /// What a request for a path finds: the file behind the path, or why
    /// there is none.
    pub open spec fn resolution(&self, path: Seq<char>) -> Result<StreamingFile, StreamError> {
        match self.route(path) {
            None => Err(StreamError::NoRoute),
            Some(id) => if self.files().dom().contains(id.0) {
                Ok(self.files()[id.0])
            } else {
                Err(StreamError::NoFile)
            },
        }
    }

    /// Whether `after` is this bridge with the stream `id` ended: the file of
    /// the stream has left the table, the route of its path is closed and
    /// every other route is as it was. A handle that names no stream leaves
    /// everything as it was.
    pub open spec fn torn_down(&self, after: &Rqstream, id: StreamId) -> bool {
        &&& after.files() == self.files().remove(id.0)
        &&& forall|path: Seq<char>| #[trigger]
            after.route(path) == if self.files().dom().contains(id.0) && path == self.files()[id.0].path@ {
                None
            } else {
                self.route(path)
            }
    }

    /// A bridge without streams.
    pub fn new() -> (b: Rqstream)
        ensures
            b.wf(),
            b.files() == Map::<usize, StreamingFile>::empty(),
            forall|path: Seq<char>| b.route(path) is None,
    {
        Rqstream { routes: Vec::new(), streaming_files: slab_new() }
    }

    fn find_route(&self, path: &String) -> (r: Option<usize>)
        requires
            self.wf(),
        ensures
            match r {
                Some(i) => i < self.routes.len() && self.routes[i as int].0@ == path@
                    && self.route(path@) == Some(self.routes[i as int].1),
                None => self.route(path@) is None && forall|i: int|
                    0 <= i < self.routes.len() ==> (#[trigger] self.routes[i]).0@ != path@,
            },
    {
        let mut i: usize = 0;
        while i < self.routes.len()
            invariant
                i <= self.routes.len(),
                distinct_paths(self.routes@),
                forall|k: int| 0 <= k < i ==> (#[trigger] self.routes[k]).0@ != path@,
            decreases self.routes.len() - i,
        {
            if self.routes[i].0 == *path {
                proof {
                    lemma_route_in(self.routes@, path@);
                }
                return Some(i);
            }
            i += 1;
        }
        proof {
            lemma_route_in(self.routes@, path@);
        }
        None
    }

    /// Registers a file of a torrent under a path and returns the handle of
    /// the stream. The type of the content is guessed from the name of the
    /// file. A path that led to another stream leads to the new one.
    pub fn stream_file(&mut self, torrent: u64, file_id: usize, file_name: &str, path_name: String) -> (id:
        StreamId)
        requires
            old(self).wf(),
        ensures
            final(self).wf(),
            !old(self).files().dom().contains(id.0),
            final(self).files().dom() == old(self).files().dom().insert(id.0),
            forall|k: usize|
                old(self).files().dom().contains(k) ==> final(self).files()[k] == old(
                    self,
                ).files()[k],
            final(self).files()[id.0].path@ == path_name@,
            final(self).files()[id.0].mime@ == mime_of_name(file_name@),
            final(self).files()[id.0].torrent == torrent,
            final(self).files()[id.0].file_id == file_id,
            final(self).route(path_name@) == Some(id),
            forall|other: Seq<char>|
                other != path_name@ ==> final(self).route(other) == old(self).route(other),
    {
        proof {
            reveal_strlit("");
            assert(""@ =~= Seq::<char>::empty());
        }
        let file = StreamingFile {
            path: path_name.clone(),
            mime: match file_extension(file_name) {
                Some(e) => guess_mime(e.as_str()),
                None => guess_mime(""),
            },
            torrent,
            file_id,
        };
        let id = StreamId(slab_insert(&mut self.streaming_files, file));
        let ghost before = self.routes@;
        let ghost at: int;
        match self.find_route(&path_name) {
            Some(i) => {
                self.routes.set(i, (path_name, id));
                proof {
                    at = i as int;
                }
            },
            None => {
                self.routes.push((path_name, id));
                proof {
                    at = before.len() as int;
                }
            },
        }
        proof {
            let after = self.routes@;
            assert(after[at].0@ == path_name@ && after[at].1 == id);
            assert forall|i: int, j: int| 0 <= i < j < after.len() implies (#[trigger] after[i]).0@
                != (#[trigger] after[j]).0@ by {
                if i < before.len() && j < before.len() {
                    assert(before[i].0@ != before[j].0@);
                }
            }
            lemma_route_in(after, path_name@);
            assert forall|other: Seq<char>| other != path_name@ implies route_in(after, other)
                == route_in(before, other) by {
                lemma_route_in(before, other);
                lemma_route_in(after, other);
                match route_in(before, other) {
                    Some(x) => {
                        let i = choose|i: int|
                            0 <= i < before.len() && (#[trigger] before[i]).0@ == other
                                && before[i].1 == x;
                        assert(after[i] == before[i]);
                    },
                    None => {
                        assert forall|i: int| 0 <= i < after.len() implies (#[trigger] after[i]).0@
                            != other by {
                            if i < before.len() {
                                assert(before[i].0@ != other);
                            }
                        }
                    },
                }
            }
        }
        id
    }

    /// Ends a stream: takes its file out of the table and closes the route of
    /// its path. A handle that names no stream changes nothing.
    pub fn stop_streaming(&mut self, id: StreamId) -> (r: Option<StreamingFile>)
        requires
            old(self).wf(),
        ensures
            final(self).wf(),
            old(self).torn_down(final(self), id),
            r == if old(self).files().dom().contains(id.0) {
                Some(old(self).files()[id.0])
            } else {
                None
            },
    {
        let file = match slab_try_remove(&mut self.streaming_files, id.0) {
            Some(file) => file,
            None => {
                assert(self.files() =~= old(self).files());
                return None;
            },
        };
        let ghost before = self.routes@;
        match self.find_route(&file.path) {
            Some(i) => {
                self.routes.remove(i);
                proof {
                    let after = self.routes@;
                    assert forall|a: int, b: int| 0 <= a < b < after.len() implies (
                    #[trigger] after[a]).0@ != (#[trigger] after[b]).0@ by {
                        let x = if a < i { a } else { a + 1 };
                        let y = if b < i { b } else { b + 1 };
                        assert(after[a] == before[x] && after[b] == before[y]);
                    }
                    lemma_route_in(after, file.path@);
                    assert forall|k: int| 0 <= k < after.len() implies (#[trigger] after[k]).0@
                        != file.path@ by {
                        let x = if k < i { k } else { k + 1 };
                        assert(after[k] == before[x]);
                    }
                    assert forall|other: Seq<char>| other != file.path@ implies route_in(
                        after,
                        other,
                    ) == route_in(before, other) by {
                        lemma_route_in(before, other);
                        lemma_route_in(after, other);
                        match route_in(before, other) {
                            Some(x) => {
                                let k = choose|k: int|
                                    0 <= k < before.len() && (#[trigger] before[k]).0@ == other
                                        && before[k].1 == x;
                                let n = if k < i { k } else { k - 1 };
                                assert(after[n] == before[k]);
                            },
                            None => {
                                assert forall|k: int| 0 <= k < after.len() implies (
                                #[trigger] after[k]).0@ != other by {
                                    let x = if k < i { k } else { k + 1 };
                                    assert(after[k] == before[x]);
                                }
                            },
                        }
                    }
                }
            },
            None => {},
        }
        Some(file)
    }

    /// Finds the file that a path leads to.
    pub fn resolve(&self, path: &str) -> (r: Result<&StreamingFile, StreamError>)
        requires
            self.wf(),
        ensures
            match self.resolution(path@) {
                Ok(file) => r matches Ok(found) && *found == file,
                Err(e) => r == Err::<&StreamingFile, StreamError>(e),
            },
    {
        let id = match self.find_route(&path.to_owned()) {
            Some(i) => self.routes[i].1,
            None => { return Err(StreamError::NoRoute); },
        };
        match slab_get(&self.streaming_files, id.0) {
            Some(file) => Ok(file),
            None => Err(StreamError::NoFile),
        }
    }
}

/// After a stream has ended, a request for its path finds no route.
pub proof fn lemma_torn_down_path_fails(before: Rqstream, after: Rqstream, id: StreamId)
    requires
        before.torn_down(&after, id),
        before.files().dom().contains(id.0),
    ensures
        after.resolution(before.files()[id.0].path@) == Err::<StreamingFile, StreamError>(
            StreamError::NoRoute,
        ),
{
    assert(after.route(before.files()[id.0].path@) is None);
}

} // verus!
