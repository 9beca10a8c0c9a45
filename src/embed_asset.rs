//! Asset resolution: files found under an `embed` base at build time, the
//! table a production build embeds, and lookups against it.

use vstd::prelude::*;
use crate::text::{concat_str, copy_str, str_eq, split_on, split_str, push_char, starts_with_char};
use crate::parse::opt_view;

verus! {

/// A snapshot of a filesystem entry taken at build time.
pub enum DirNode {
    /// A regular file.
    File,
    /// A directory and its entries.
    Dir(Vec<DirEntry>),
}

/// A named entry of a directory.
pub struct DirEntry {
    pub name: String,
    pub node: DirNode,
}

/// `dir/name`
pub open spec fn child_path(dir: Seq<char>, name: Seq<char>) -> Seq<char> {
    dir + seq!['/'] + name
}

/// Every regular file at or under `path`, directories in entry order.
pub open spec fn files_of(path: Seq<char>, node: DirNode) -> Seq<Seq<char>>
    decreases node,
{
    match node {
        DirNode::File => seq![path],
        DirNode::Dir(v) => files_in(path, v@),
    }
}

/// Every regular file under the entries `es` of directory `dir`.
pub open spec fn files_in(dir: Seq<char>, es: Seq<DirEntry>) -> Seq<Seq<char>>
    decreases es,
{
    if es.len() == 0 {
        Seq::empty()
    } else {
        files_in(dir, es.drop_last()) + files_of(child_path(dir, es.last().name@), es.last().node)
    }
}

fn child_path_exec(dir: &str, name: &str) -> (r: String)
    ensures
        r@ == child_path(dir@, name@),
{
    proof {
        reveal_strlit("/");
        assert("/"@ =~= seq!['/']);
    }
    let d = concat_str(dir, "/");
    concat_str(d.as_str(), name)
}

/// Every regular file at or under `path`: the path itself for a file, else
/// the files under each entry of the directory, in entry order.
pub fn recurse_all_files(path: &str, node: &DirNode) -> (r: Vec<String>)
    ensures
        r.deep_view() == files_of(path@, *node),
    decreases node,
{
    match node {
        DirNode::File => {
            let r = vec![copy_str(path)];
            assert(r.deep_view() =~= seq![path@]);
            r
        },
        DirNode::Dir(v) => {
            let mut out: Vec<String> = Vec::new();
            let mut i: usize = 0;
            while i < v.len()
                invariant
                    i <= v.len(),
                    *node is Dir,
                    (*node)->Dir_0 == *v,
                    out.deep_view() == files_in(path@, v@.subrange(0, i as int)),
                decreases v.len() - i,
            {
                proof {
                    let q = v@.subrange(0, i as int + 1);
                    assert(q.drop_last() =~= v@.subrange(0, i as int));
                }
                proof {
                    vstd::std_specs::vec::axiom_vec_index_decreases(*v, i as int);
                    assert(*v == (*node)->Dir_0);
                    assert(decreases_to!(*node => (*node)->Dir_0));
                    assert(decreases_to!(*v => v[i as int]));
                    assert(decreases_to!(v[i as int] => v[i as int].node));
                    assert(decreases_to!(*node => v@[i as int].node));
                }
                let child = child_path_exec(path, v[i].name.as_str());
                let mut sub = recurse_all_files(child.as_str(), &v[i].node);
                let ghost prev = out.deep_view();
                let ghost subv = sub.deep_view();
                out.append(&mut sub);
                assert(out.deep_view() =~= prev + subv);
                i = i + 1;
            }
            assert(v@.subrange(0, v.len() as int) =~= v@);
            out
        },
    }
}

/// The relative paths of the files under the entries `es`: the files of each
/// entry, named from the entry on.
pub open spec fn rel_files_in(es: Seq<DirEntry>) -> Seq<Seq<char>>
    decreases es.len(),
{
    if es.len() == 0 {
        Seq::empty()
    } else {
        rel_files_in(es.drop_last()) + files_of(es.last().name@, es.last().node)
    }
}

/// Prefixing the starting path prefixes every file found.
pub proof fn lemma_files_prefix(a: Seq<char>, x: Seq<char>, node: DirNode)
    ensures
        files_of(a + x, node) == files_of(x, node).map_values(|s: Seq<char>| a + s),
    decreases node,
{
    match node {
        DirNode::File => {
            assert(files_of(x, node).map_values(|s: Seq<char>| a + s) =~= seq![a + x]);
        },
        DirNode::Dir(v) => {
            lemma_files_in_prefix(a, x, v@);
        },
    }
}

pub proof fn lemma_files_in_prefix(a: Seq<char>, x: Seq<char>, es: Seq<DirEntry>)
    ensures
        files_in(a + x, es) == files_in(x, es).map_values(|s: Seq<char>| a + s),
    decreases es,
{
    if es.len() > 0 {
        lemma_files_in_prefix(a, x, es.drop_last());
        let e = es.last();
        assert(child_path(a + x, e.name@) =~= a + child_path(x, e.name@));
        lemma_files_prefix(a, child_path(x, e.name@), e.node);
        let l = files_in(x, es.drop_last());
        let r = files_of(child_path(x, e.name@), e.node);
        assert((l + r).map_values(|s: Seq<char>| a + s) =~= l.map_values(|s: Seq<char>| a + s) + r.map_values(
            |s: Seq<char>| a + s,
        ));
    }
}

/// The files under a directory are its base joined with their relative paths.
pub proof fn lemma_files_relative(base: Seq<char>, es: Seq<DirEntry>)
    ensures
        files_in(base, es) == rel_files_in(es).map_values(|s: Seq<char>| base + seq!['/'] + s),
    decreases es.len(),
{
    if es.len() > 0 {
        lemma_files_relative(base, es.drop_last());
        let e = es.last();
        assert(child_path(base, e.name@) =~= (base + seq!['/']) + e.name@);
        lemma_files_prefix(base + seq!['/'], e.name@, e.node);
        let l = rel_files_in(es.drop_last());
        let r = files_of(e.name@, e.node);
        assert((l + r).map_values(|s: Seq<char>| base + seq!['/'] + s) =~= l.map_values(
            |s: Seq<char>| base + seq!['/'] + s,
        ) + r.map_values(|s: Seq<char>| base + seq!['/'] + s));
        assert(r.map_values(|s: Seq<char>| base + seq!['/'] + s) =~= r.map_values(|s: Seq<char>| (base + seq!['/']) + s));
    }
}

// ---- MIME types ----

/// What `mime_guess` gives as the first MIME type for a path's extension.
pub uninterp spec fn mime_of(path: Seq<char>) -> Option<Seq<char>>;

/// Relies on `mime_guess::from_path(..).first()`: a guess from the path's
/// extension alone, with no disk access.
#[verifier::external_body]
pub(crate) fn guess_mime(path: &str) -> (r: Option<String>)
    ensures
        opt_view(r) == mime_of(path@),
{
    mime_guess::from_path(path).first().map(|m| m.to_string())
}

// ---- the embedded table ----

/// One file a production build embeds.
#[derive(Debug, Clone, PartialEq, Eq)]
pub struct StaticAsset {
    /// The identifier of its byte blob.
    pub ident: String,
    /// Its full path on the build machine.
    pub full: String,
    /// The path requests name it by.
    pub path: String,
    pub mime: Option<String>,
}

/// Why an asset could not be served.
#[derive(Debug, Clone, PartialEq, Eq)]
pub enum AssetError {
    /// The file could not be read: its path and the reason.
    FileIO(String, String),
    /// No asset has this path.
    NotFound(String),
}

/// A character of a path as it stands in a blob identifier.
pub open spec fn ident_char(c: char) -> char {
    if c == '.' || c == '-' {
        '_'
    } else {
        c
    }
}

/// An ASCII lower-case letter.
pub open spec fn is_ascii_lower(c: char) -> bool {
    'a' <= c && c <= 'z'
}

/// `u` is `c` in ASCII upper case.
pub open spec fn upper_char(c: char, u: char) -> bool {
    if is_ascii_lower(c) {
        u as u32 == c as u32 - 32
    } else {
        u == c
    }
}

/// Relies on `char::to_ascii_uppercase`: ASCII lower-case letters become
/// upper case, every other character stays.
#[verifier::external_body]
pub(crate) fn ascii_upper(c: char) -> (r: char)
    ensures
        upper_char(c, r),
{
    c.to_ascii_uppercase()
}

/// The identifier of a single embedded file: its name with `.` and `-` taken to `_`.
pub open spec fn file_ident(name: Seq<char>) -> Seq<char> {
    name.map_values(|c: char| ident_char(c))
}

/// The non-empty segments, in order.
pub open spec fn components(segs: Seq<Seq<char>>) -> Seq<Seq<char>>
    decreases segs.len(),
{
    if segs.len() == 0 {
        Seq::empty()
    } else if segs.last().len() > 0 {
        components(segs.drop_last()).push(segs.last())
    } else {
        components(segs.drop_last())
    }
}

/// `out` is component `c` upper-cased with `.` and `-` taken to `_`.
pub open spec fn component_ident(c: Seq<char>, out: Seq<char>) -> bool {
    out.len() == c.len() && forall|i: int| 0 <= i < c.len() ==> upper_char(ident_char(c[i]), #[trigger] out[i])
}

/// The blob identifier of a relative path: `__`, then its components
/// upper-cased with `.` and `-` taken to `_`, joined by `_`.
pub open spec fn path_ident(rel: Seq<char>, id: Seq<char>) -> bool {
    let comps = components(split_on(rel, '/'));
    exists|outs: Seq<Seq<char>>| {
        &&& outs.len() == comps.len()
        &&& (forall|k: int| 0 <= k < comps.len() ==> component_ident(comps[k], #[trigger] outs[k]))
        &&& id == seq!['_', '_'] + crate::text::join_with(outs, seq!['_'])
    }
}

fn ident_char_exec(c: char) -> (r: char)
    ensures
        r == ident_char(c),
{
    if c == '.' || c == '-' {
        '_'
    } else {
        c
    }
}

fn component_ident_exec(c: &str) -> (r: String)
    ensures
        component_ident(c@, r@),
{
    let n = c.unicode_len();
    let mut r = String::new();
    let mut i: usize = 0;
    while i < n
        invariant
            n == c@.len(),
            i <= n,
            r@.len() == i,
            forall|j: int| 0 <= j < i ==> upper_char(ident_char(c@[j]), #[trigger] r@[j]),
        decreases n - i,
    {
        let u = ascii_upper(ident_char_exec(c.get_char(i)));
        push_char(&mut r, u);
        i = i + 1;
    }
    r
}

/// The identifier of a single embedded file: its name with `.` and `-` taken to `_`.
pub fn file_ident_exec(name: &str) -> (r: String)
    ensures
        r@ == file_ident(name@),
{
    let n = name.unicode_len();
    let mut r = String::new();
    let mut i: usize = 0;
    while i < n
        invariant
            n == name@.len(),
            i <= n,
            r@ == name@.subrange(0, i as int).map_values(|c: char| ident_char(c)),
        decreases n - i,
    {
        let c = ident_char_exec(name.get_char(i));
        push_char(&mut r, c);
        assert(r@ =~= name@.subrange(0, i as int + 1).map_values(|c: char| ident_char(c)));
        i = i + 1;
    }
    assert(name@.subrange(0, n as int) =~= name@);
    r
}

/// The blob identifier of a file embedded under a directory base.
pub fn static_ident(rel: &str) -> (r: String)
    ensures
        path_ident(rel@, r@),
{
    let segs = split_str(rel, '/');
    let ghost sv = segs.deep_view();
    let ghost mut comps: Seq<Seq<char>> = Seq::empty();
    let mut outs: Vec<String> = Vec::new();
    let mut i: usize = 0;
    while i < segs.len()
        invariant
            i <= segs.len(),
            sv == segs.deep_view(),
            comps == components(sv.subrange(0, i as int)),
            outs@.len() == comps.len(),
            forall|k: int| 0 <= k < comps.len() ==> component_ident(comps[k], #[trigger] outs.deep_view()[k]),
        decreases segs.len() - i,
    {
        proof {
            let q = sv.subrange(0, i as int + 1);
            assert(q.drop_last() =~= sv.subrange(0, i as int));
        }
        if segs[i].unicode_len() > 0 {
            let o = component_ident_exec(segs[i].as_str());
            let ghost prev = outs.deep_view();
            let ghost ov = o@;
            outs.push(o);
            proof {
                assert(outs.deep_view() =~= prev.push(ov));
                comps = comps.push(sv[i as int]);
                assert forall|k: int| 0 <= k < comps.len() implies component_ident(comps[k], #[trigger] outs.deep_view()[k]) by {
                    if k < comps.len() - 1 {
                        assert(outs.deep_view()[k] == prev[k]);
                    }
                }
            }
        }
        i = i + 1;
    }
    assert(sv.subrange(0, segs.len() as int) =~= sv);
    proof {
        reveal_strlit("_");
        reveal_strlit("__");
        assert("_"@ =~= seq!['_']);
        assert("__"@ =~= seq!['_', '_']);
    }
    let joined = crate::text::join_str(&outs, "_");
    let r = concat_str("__", joined.as_str());
    assert(r@ == seq!['_', '_'] + crate::text::join_with(outs.deep_view(), seq!['_']));
    r
}

/// How a build serves the assets of one load.
#[derive(Debug, Clone, PartialEq, Eq)]
pub enum AssetType {
    /// Development: read live from disk per request.
    FileAsset,
    /// Production: looked up in a table embedded at build time.
    StaticAsset(Vec<StaticAsset>),
}

/// The request paths of the embedded table: the file's own name for a
/// single-file base, else the base-relative path of every file under it.
pub open spec fn table_keys_of(base: Seq<char>, node: DirNode) -> Seq<Seq<char>> {
    match node {
        DirNode::File => seq![crate::server_fn::file_name_of(base)],
        DirNode::Dir(v) => rel_files_in(v@),
    }
}

/// Entry `a` embeds the file at `full` under request path `key`.
pub open spec fn entry_built(single_file: bool, a: StaticAsset, key: Seq<char>, full: Seq<char>) -> bool {
    &&& a.path@ == key
    &&& a.full@ == full
    &&& if single_file {
        a.ident@ == file_ident(key) && opt_view(a.mime) == mime_of(full)
    } else {
        path_ident(key, a.ident@) && opt_view(a.mime) == mime_of(key)
    }
}

/// The table embeds, in order, every file found at or under the base, each
/// under its request path.
pub open spec fn table_built(base: Seq<char>, node: DirNode, t: Seq<StaticAsset>) -> bool {
    let keys = table_keys_of(base, node);
    let fulls = files_of(base, node);
    &&& t.len() == keys.len()
    &&& t.len() == fulls.len()
    &&& forall|k: int| 0 <= k < t.len() ==> entry_built(node is File, #[trigger] t[k], keys[k], fulls[k])
}

fn rel_files_exec(es: &Vec<DirEntry>) -> (r: Vec<String>)
    ensures
        r.deep_view() == rel_files_in(es@),
{
    let mut out: Vec<String> = Vec::new();
    let mut i: usize = 0;
    while i < es.len()
        invariant
            i <= es.len(),
            out.deep_view() == rel_files_in(es@.subrange(0, i as int)),
        decreases es.len() - i,
    {
        proof {
            let q = es@.subrange(0, i as int + 1);
            assert(q.drop_last() =~= es@.subrange(0, i as int));
        }
        let mut sub = recurse_all_files(es[i].name.as_str(), &es[i].node);
        let ghost prev = out.deep_view();
        let ghost subv = sub.deep_view();
        out.append(&mut sub);
        assert(out.deep_view() =~= prev + subv);
        i = i + 1;
    }
    assert(es@.subrange(0, es.len() as int) =~= es@);
    out
}

impl AssetType {
    /// Assets read live from disk.
    pub fn file() -> (r: AssetType)
        ensures
            r is FileAsset,
    {
        AssetType::FileAsset
    }

    /// The table a production build embeds for the base snapshot `node`
    /// found at `base`: one entry per regular file, keyed by its path
    /// relative to the base (a single-file base is keyed by its name).
    pub fn static_(base: &str, node: &DirNode) -> (r: AssetType)
        ensures
            r matches AssetType::StaticAsset(t) && table_built(base@, *node, t@),
    {
        match node {
            DirNode::File => {
                let segs = split_str(base, '/');
                proof {
                    crate::text::lemma_split_nonempty(base@, '/');
                }
                let name = copy_str(segs[segs.len() - 1].as_str());
                let a = StaticAsset {
                    ident: file_ident_exec(name.as_str()),
                    full: copy_str(base),
                    path: name,
                    mime: guess_mime(base),
                };
                let t = vec![a];
                AssetType::StaticAsset(t)
            },
            DirNode::Dir(v) => {
                let rels = rel_files_exec(v);
                proof {
                    lemma_files_relative(base@, v@);
                }
                let mut t: Vec<StaticAsset> = Vec::new();
                let mut i: usize = 0;
                while i < rels.len()
                    invariant
                        i <= rels.len(),
                        rels.deep_view() == rel_files_in(v@),
                        files_in(base@, v@) == rel_files_in(v@).map_values(|s: Seq<char>| base@ + seq!['/'] + s),
                        t@.len() == i,
                        forall|k: int| 0 <= k < i ==> entry_built(false, #[trigger] t@[k], rels.deep_view()[k], files_in(base@, v@)[k]),
                    decreases rels.len() - i,
                {
                    let rel = rels[i].as_str();
                    let full = child_path_exec(base, rel);
                    let a = StaticAsset {
                        ident: static_ident(rel),
                        full,
                        path: copy_str(rel),
                        mime: guess_mime(rel),
                    };
                    assert(rels.deep_view()[i as int] == rel@);
                    t.push(a);
                    i = i + 1;
                }
                AssetType::StaticAsset(t)
            },
        }
    }
}

/// Looks `path` up by exact match among the embedded entries.
pub fn find_asset(t: &Vec<StaticAsset>, path: &str) -> (r: Result<usize, AssetError>)
    ensures
        match r {
            Ok(k) => k < t@.len() && t@[k as int].path@ == path@,
            Err(AssetError::NotFound(p)) => p@ == path@ && forall|k: int| 0 <= k < t@.len() ==> (#[trigger] t@[k]).path@ != path@,
            Err(AssetError::FileIO(_, _)) => false,
        },
{
    let mut i: usize = 0;
    while i < t.len()
        invariant
            i <= t.len(),
            forall|k: int| 0 <= k < i ==> (#[trigger] t@[k]).path@ != path@,
        decreases t.len() - i,
    {
        if str_eq(t[i].path.as_str(), path) {
            return Ok(i);
        }
        i = i + 1;
    }
    Err(AssetError::NotFound(copy_str(path)))
}

/// The embedded table holds exactly one entry per file found under the base
/// at build time, in walk order, each under its base-relative path; a lookup
/// succeeds exactly for those paths, whatever else is on disk later.
pub proof fn lemma_embedded_table(base: Seq<char>, node: DirNode, t: Seq<StaticAsset>, p: Seq<char>)
    requires
        table_built(base, node, t),
    ensures
        t.len() == files_of(base, node).len(),
        node is Dir ==> forall|k: int| 0 <= k < t.len() ==> files_of(base, node)[k] == base + seq!['/'] + (#[trigger] t[k]).path@,
        (exists|k: int| 0 <= k < t.len() && (#[trigger] t[k]).path@ == p) <==> table_keys_of(base, node).contains(p),
{
    if let DirNode::Dir(v) = node {
        lemma_files_relative(base, v@);
    }
    let keys = table_keys_of(base, node);
    if keys.contains(p) {
        let k = choose|k: int| 0 <= k < keys.len() && keys[k] == p;
        assert(t[k].path@ == p);
    }
    if exists|k: int| 0 <= k < t.len() && (#[trigger] t[k]).path@ == p {
        let k = choose|k: int| 0 <= k < t.len() && (#[trigger] t[k]).path@ == p;
        assert(keys[k] == p);
    }
}

// ---- development mode ----

/// `requested` resolved against `base` as `Path::join` does: an absolute
/// request replaces the base; otherwise a `/` is put between them unless
/// the base is empty or already ends with one.
pub open spec fn joined_path(base: Seq<char>, requested: Seq<char>) -> Seq<char> {
    if requested.len() > 0 && requested[0] == '/' {
        requested
    } else if base.len() == 0 || base.last() == '/' {
        base + requested
    } else {
        base + seq!['/'] + requested
    }
}

/// The file a development build reads for `requested` under `base`.
pub fn dev_asset_path(base: &str, requested: &str) -> (r: String)
    ensures
        r@ == joined_path(base@, requested@),
{
    if starts_with_char(requested, '/') {
        copy_str(requested)
    } else {
        let n = base.unicode_len();
        if n == 0 || base.get_char(n - 1) == '/' {
            concat_str(base, requested)
        } else {
            child_path_exec(base, requested)
        }
    }
}

/// What reading a file gave.
#[derive(Debug, Clone, PartialEq, Eq)]
pub enum ReadOutcome {
    Bytes(Vec<u8>),
    /// There is no file at the path.
    Missing,
    /// The file could not be read, for this reason.
    Failed(String),
}

/// An asset's content and MIME type.
#[derive(Debug, Clone, PartialEq, Eq, Default)]
pub struct EmbeddedAsset {
    pub data: Vec<u8>,
    pub content_type: Option<String>,
}

impl EmbeddedAsset {
    pub fn new(data: Vec<u8>, mime: Option<String>) -> (r: EmbeddedAsset)
        ensures
            r.data@ == data@,
            opt_view(r.content_type) == opt_view(mime),
    {
        EmbeddedAsset { data, content_type: mime }
    }

    /// The asset a development build serves for the file at `path`: its
    /// bytes with the MIME type guessed from the path, `NotFound` when there
    /// is no such file, `FileIO` when it could not be read.
    pub fn from_read(path: &str, outcome: ReadOutcome) -> (r: Result<EmbeddedAsset, AssetError>)
        ensures
            match outcome {
                ReadOutcome::Bytes(b) => r matches Ok(a) && a.data@ == b@ && opt_view(a.content_type) == mime_of(path@),
                ReadOutcome::Missing => r matches Err(AssetError::NotFound(p)) && p@ == path@,
                ReadOutcome::Failed(m) => r matches Err(AssetError::FileIO(p, why)) && p@ == path@ && why@ == m@,
            },
    {
        match outcome {
            ReadOutcome::Bytes(b) => Ok(EmbeddedAsset::new(b, guess_mime(path))),
            ReadOutcome::Missing => Err(AssetError::NotFound(copy_str(path))),
            ReadOutcome::Failed(m) => Err(AssetError::FileIO(copy_str(path), m)),
        }
    }
}

// ---- the embed base ----

/// A base segment that names an environment variable (`$NAME`).
pub open spec fn is_env_segment(seg: Seq<char>) -> bool {
    seg.len() > 0 && seg[0] == '$'
}

/// How many of the segments name an environment variable.
pub open spec fn env_count(segs: Seq<Seq<char>>) -> nat
    decreases segs.len(),
{
    if segs.len() == 0 {
        0
    } else {
        env_count(segs.drop_last()) + if is_env_segment(segs.last()) { 1nat } else { 0nat }
    }
}

/// The variable names, left to right.
pub open spec fn env_names(segs: Seq<Seq<char>>) -> Seq<Seq<char>>
    decreases segs.len(),
{
    if segs.len() == 0 {
        Seq::empty()
    } else if is_env_segment(segs.last()) {
        env_names(segs.drop_last()).push(segs.last().drop_first())
    } else {
        env_names(segs.drop_last())
    }
}

/// The segments with each variable replaced by its value (`vals[k]` for the
/// k-th variable), or the name of the first variable without a value.
pub open spec fn resolve_env(segs: Seq<Seq<char>>, vals: Seq<Option<Seq<char>>>) -> Result<Seq<Seq<char>>, Seq<char>>
    decreases segs.len(),
{
    if segs.len() == 0 {
        Ok(Seq::empty())
    } else {
        match resolve_env(segs.drop_last(), vals) {
            Err(n) => Err(n),
            Ok(prev) => if is_env_segment(segs.last()) {
                match vals[env_count(segs.drop_last()) as int] {
                    Some(v) => Ok(prev.push(v)),
                    None => Err(segs.last().drop_first()),
                }
            } else {
                Ok(prev.push(segs.last()))
            },
        }
    }
}

/// Why the embed base could not be resolved.
#[derive(Debug, Clone, PartialEq, Eq)]
pub enum EmbedBaseError {
    /// The named environment variable is not set.
    UnresolvedEnvVar(String),
}

/// The environment variables the embed base names, left to right.
pub fn embed_env_vars(embed: &str) -> (r: Vec<String>)
    ensures
        r.deep_view() == env_names(split_on(embed@, '/')),
        r@.len() == env_count(split_on(embed@, '/')),
{
    let segs = split_str(embed, '/');
    let mut r: Vec<String> = Vec::new();
    let mut i: usize = 0;
    while i < segs.len()
        invariant
            i <= segs.len(),
            r.deep_view() == env_names(segs.deep_view().subrange(0, i as int)),
            r@.len() == env_count(segs.deep_view().subrange(0, i as int)),
        decreases segs.len() - i,
    {
        proof {
            let q = segs.deep_view().subrange(0, i as int + 1);
            assert(q.drop_last() =~= segs.deep_view().subrange(0, i as int));
        }
        if starts_with_char(segs[i].as_str(), '$') {
            let ghost prev = r.deep_view();
            let name = copy_str(crate::text::drop_first(segs[i].as_str()));
            r.push(name);
            assert(r.deep_view() =~= prev.push(segs.deep_view()[i as int].drop_first()));
        }
        i = i + 1;
    }
    assert(segs.deep_view().subrange(0, segs.len() as int) =~= segs.deep_view());
    r
}

pub open spec fn opt_views(vals: Seq<Option<String>>) -> Seq<Option<Seq<char>>> {
    vals.map_values(|o: Option<String>| opt_view(o))
}

proof fn lemma_env_count_prefix(segs: Seq<Seq<char>>, j: int)
    requires
        0 <= j < segs.len(),
    ensures
        env_count(segs.subrange(0, j)) + (if is_env_segment(segs[j]) { 1nat } else { 0nat }) <= env_count(segs),
    decreases segs.len() - j,
{
    let q = segs.subrange(0, j + 1);
    assert(q.drop_last() =~= segs.subrange(0, j));
    if j + 1 < segs.len() {
        lemma_env_count_prefix(segs, j + 1);
    } else {
        assert(q =~= segs);
    }
}

/// The embed base with each `$NAME` segment replaced by `values[k]`, the
/// value found for the k-th variable; fails on the first variable that has
/// no value.
pub fn resolve_embed_base(embed: &str, values: &Vec<Option<String>>) -> (r: Result<String, EmbedBaseError>)
    requires
        values@.len() == env_count(split_on(embed@, '/')),
    ensures
        match resolve_env(split_on(embed@, '/'), opt_views(values@)) {
            Ok(segs) => r matches Ok(s) && s@ == crate::text::join_with(segs, seq!['/']),
            Err(n) => r matches Err(EmbedBaseError::UnresolvedEnvVar(m)) && m@ == n,
        },
{
    let segs = split_str(embed, '/');
    let ghost vv = opt_views(values@);
    let mut out: Vec<String> = Vec::new();
    let mut i: usize = 0;
    let mut k: usize = 0;
    assert(out.deep_view() =~= Seq::<Seq<char>>::empty());
    assert(segs.deep_view().subrange(0, 0) =~= Seq::<Seq<char>>::empty());
    while i < segs.len()
        invariant
            i <= segs.len(),
            segs.deep_view() == split_on(embed@, '/'),
            vv == opt_views(values@),
            k == env_count(segs.deep_view().subrange(0, i as int)),
            env_count(segs.deep_view()) == values@.len(),
            resolve_env(segs.deep_view().subrange(0, i as int), vv) == Ok::<Seq<Seq<char>>, Seq<char>>(out.deep_view()),
        decreases segs.len() - i,
    {
        proof {
            let q = segs.deep_view().subrange(0, i as int + 1);
            assert(q.drop_last() =~= segs.deep_view().subrange(0, i as int));
            lemma_env_count_prefix(segs.deep_view(), i as int);
        }
        let ghost prev = out.deep_view();
        if starts_with_char(segs[i].as_str(), '$') {
            assert(segs.deep_view()[i as int] == segs@[i as int]@);
            assert(k < values.len());
            match &values[k] {
                Some(v) => {
                    out.push(copy_str(v.as_str()));
                },
                None => {
                    proof {
                        lemma_resolve_err_sticky(segs.deep_view(), vv, i as int + 1, segs.deep_view()[i as int].drop_first());
                    }
                    return Err(EmbedBaseError::UnresolvedEnvVar(copy_str(crate::text::drop_first(segs[i].as_str()))));
                },
            }
            k = k + 1;
        } else {
            out.push(copy_str(segs[i].as_str()));
        }
        assert(out.deep_view() =~= match resolve_env(segs.deep_view().subrange(0, i as int + 1), vv) {
            Ok(x) => x,
            Err(_) => out.deep_view(),
        });
        i = i + 1;
    }
    assert(segs.deep_view().subrange(0, segs.len() as int) =~= segs.deep_view());
    proof {
        reveal_strlit("/");
        assert("/"@ =~= seq!['/']);
    }
    Ok(crate::text::join_str(&out, "/"))
}

proof fn lemma_resolve_err_sticky(segs: Seq<Seq<char>>, vals: Seq<Option<Seq<char>>>, j: int, n: Seq<char>)
    requires
        0 <= j <= segs.len(),
        resolve_env(segs.subrange(0, j), vals) == Err::<Seq<Seq<char>>, Seq<char>>(n),
    ensures
        resolve_env(segs, vals) == Err::<Seq<Seq<char>>, Seq<char>>(n),
    decreases segs.len() - j,
{
    if j < segs.len() {
        let q = segs.subrange(0, j + 1);
        assert(q.drop_last() =~= segs.subrange(0, j));
        lemma_resolve_err_sticky(segs, vals, j + 1, n);
    } else {
        assert(segs.subrange(0, j) =~= segs);
    }
}

// ---- the internal asset-load form ----

/// A field value of the asset-load form.
#[derive(Debug, Clone, PartialEq, Eq)]
pub enum FieldValue {
    /// A string literal, with its contents.
    Str(String),
    /// Any other expression, with its source text.
    Expr(String),
}

/// A field of the asset-load form; unnamed members have no name.
#[derive(Debug, Clone, PartialEq, Eq)]
pub struct FieldSource {
    pub name: Option<String>,
    pub value: FieldValue,
}

/// The asset-load form `FileAsset { base: "..", path: .. }` (or
/// `StaticAsset { .. }`) as the front end read it.
#[derive(Debug, Clone, PartialEq, Eq)]
pub struct AssetStructSource {
    pub type_ident: Option<String>,
    pub fields: Vec<FieldSource>,
}

/// A validated asset load.
#[derive(Debug, Clone, PartialEq, Eq)]
pub struct LoadAssetImpl {
    pub asset_type: AssetType,
    pub base: String,
    pub path: FieldValue,
}

/// Why an asset-load form was rejected.
#[derive(Debug, Clone, PartialEq, Eq)]
pub enum LoadAssetError {
    MissingBase,
    BaseNotLiteral,
    MissingPath,
    UnknownAssetType,
    /// The files under this base could not be listed.
    Unreadable(String),
}

pub enum FieldValueView {
    Str(Seq<char>),
    Expr(Seq<char>),
}

impl View for FieldValue {
    type V = FieldValueView;

    open spec fn view(&self) -> FieldValueView {
        match self {
            FieldValue::Str(s) => FieldValueView::Str(s@),
            FieldValue::Expr(s) => FieldValueView::Expr(s@),
        }
    }
}

/// The value of the last field named `name`.
pub open spec fn last_field(fs: Seq<FieldSource>, name: Seq<char>) -> Option<FieldValueView>
    decreases fs.len(),
{
    if fs.len() == 0 {
        None
    } else if opt_view(fs.last().name) == Some(name) {
        Some(fs.last().value@)
    } else {
        last_field(fs.drop_last(), name)
    }
}

pub open spec fn base_word() -> Seq<char> {
    seq!['b', 'a', 's', 'e']
}

pub open spec fn path_word() -> Seq<char> {
    seq!['p', 'a', 't', 'h']
}

pub open spec fn file_asset_word() -> Seq<char> {
    seq!['F', 'i', 'l', 'e', 'A', 's', 's', 'e', 't']
}

pub open spec fn static_asset_word() -> Seq<char> {
    seq!['S', 't', 'a', 't', 'i', 'c', 'A', 's', 's', 'e', 't']
}

fn last_field_exec(fs: &Vec<FieldSource>, name: &str) -> (r: Option<usize>)
    ensures
        match r {
            Some(k) => k < fs@.len() && last_field(fs@, name@) == Some(fs@[k as int].value@),
            None => last_field(fs@, name@) is None,
        },
{
    let mut i: usize = fs.len();
    assert(fs@.subrange(0, i as int) =~= fs@);
    while i > 0
        invariant
            i <= fs@.len(),
            last_field(fs@, name@) == last_field(fs@.subrange(0, i as int), name@),
        decreases i,
    {
        let j = i - 1;
        proof {
            let q = fs@.subrange(0, i as int);
            assert(q.drop_last() =~= fs@.subrange(0, j as int));
            assert(q.last() == fs@[j as int]);
        }
        let hit = match &fs[j].name {
            Some(n) => str_eq(n.as_str(), name),
            None => false,
        };
        if hit {
            return Some(j);
        }
        i = j;
    }
    assert(fs@.subrange(0, 0) =~= Seq::<FieldSource>::empty());
    None
}

fn copy_field(v: &FieldValue) -> (r: FieldValue)
    ensures
        r@ == v@,
{
    match v {
        FieldValue::Str(s) => FieldValue::Str(copy_str(s.as_str())),
        FieldValue::Expr(s) => FieldValue::Expr(copy_str(s.as_str())),
    }
}

/// `a` is the embedded table built for the snapshot `node` of `base`.
pub open spec fn static_table_of(a: AssetType, base: Seq<char>, node: DirNode) -> bool {
    match a {
        AssetType::StaticAsset(t) => table_built(base, node, t@),
        AssetType::FileAsset => false,
    }
}

/// The outcome of validating the asset-load form `item`.
pub open spec fn load_asset_outcome(
    r: Result<LoadAssetImpl, LoadAssetError>,
    item: AssetStructSource,
    snapshot: Option<DirNode>,
) -> bool {
    match (last_field(item.fields@, base_word()), last_field(item.fields@, path_word())) {
        (None, _) => r == Err::<LoadAssetImpl, LoadAssetError>(LoadAssetError::MissingBase),
        (Some(FieldValueView::Expr(_)), _) => r == Err::<LoadAssetImpl, LoadAssetError>(LoadAssetError::BaseNotLiteral),
        (Some(FieldValueView::Str(_)), None) => r == Err::<LoadAssetImpl, LoadAssetError>(LoadAssetError::MissingPath),
        (Some(FieldValueView::Str(b)), Some(p)) => {
            if opt_view(item.type_ident) == Some(file_asset_word()) {
                r matches Ok(l) && l.asset_type is FileAsset && l.base@ == b && l.path@ == p
            } else if opt_view(item.type_ident) == Some(static_asset_word()) {
                match snapshot {
                    Some(node) => r matches Ok(l) && l.base@ == b && l.path@ == p && static_table_of(l.asset_type, b, node),
                    None => r matches Err(LoadAssetError::Unreadable(x)) && x@ == b,
                }
            } else {
                r == Err::<LoadAssetImpl, LoadAssetError>(LoadAssetError::UnknownAssetType)
            }
        },
    }
}

impl LoadAssetImpl {
    /// The base directory the form names, when it is a string literal.
    pub fn base_literal(item: &AssetStructSource) -> (r: Option<String>)
        ensures
            match last_field(item.fields@, base_word()) {
                Some(FieldValueView::Str(b)) => r matches Some(s) && s@ == b,
                _ => r is None,
            },
    {
        proof {
            reveal_strlit("base");
            assert("base"@ =~= base_word());
        }
        match last_field_exec(&item.fields, "base") {
            Some(k) => match &item.fields[k].value {
                FieldValue::Str(b) => Some(copy_str(b.as_str())),
                FieldValue::Expr(_) => None,
            },
            None => None,
        }
    }

    /// Validates the form: `base` must be a string literal and `path` must be
    /// present; `FileAsset` reads live, `StaticAsset` embeds the table built
    /// from `snapshot`, the listing of the base (`None` when it could not be
    /// listed).
    pub fn try_new(item: &AssetStructSource, snapshot: &Option<DirNode>) -> (r: Result<LoadAssetImpl, LoadAssetError>)
        ensures
            load_asset_outcome(r, *item, *snapshot),
    {
        proof {
            reveal_strlit("base");
            reveal_strlit("path");
            reveal_strlit("FileAsset");
            reveal_strlit("StaticAsset");
            assert("base"@ =~= base_word());
            assert("path"@ =~= path_word());
            assert("FileAsset"@ =~= file_asset_word());
            assert("StaticAsset"@ =~= static_asset_word());
        }
        let base = match last_field_exec(&item.fields, "base") {
            Some(k) => match &item.fields[k].value {
                FieldValue::Str(b) => copy_str(b.as_str()),
                FieldValue::Expr(_) => {
                    return Err(LoadAssetError::BaseNotLiteral);
                },
            },
            None => {
                return Err(LoadAssetError::MissingBase);
            },
        };
        let path = match last_field_exec(&item.fields, "path") {
            Some(k) => copy_field(&item.fields[k].value),
            None => {
                return Err(LoadAssetError::MissingPath);
            },
        };
        let (is_file, is_static) = match &item.type_ident {
            Some(t) => (str_eq(t.as_str(), "FileAsset"), str_eq(t.as_str(), "StaticAsset")),
            None => (false, false),
        };
        if is_file {
            Ok(LoadAssetImpl { asset_type: AssetType::file(), base, path })
        } else if is_static {
            match snapshot {
                Some(node) => {
                    let asset_type = AssetType::static_(base.as_str(), node);
                    Ok(LoadAssetImpl { asset_type, base, path })
                },
                None => Err(LoadAssetError::Unreadable(base)),
            }
        } else {
            Err(LoadAssetError::UnknownAssetType)
        }
    }
}

impl AssetError {
    /// The text shown for this error.
    pub fn message(&self) -> (r: String)
        ensures
            r@ == match self {
                AssetError::FileIO(p, _) => "Failed to read file at ("@ + p@ + ")"@,
                AssetError::NotFound(p) => "Asset Not Found ("@ + p@ + ")"@,
            },
    {
        match self {
            AssetError::FileIO(p, _) => {
                let a = concat_str("Failed to read file at (", p.as_str());
                concat_str(a.as_str(), ")")
            },
            AssetError::NotFound(p) => {
                let a = concat_str("Asset Not Found (", p.as_str());
                concat_str(a.as_str(), ")")
            },
        }
    }
}

} // verus!
