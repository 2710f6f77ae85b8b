//! Decisions of the protobuf build helper: its options, the `protoc` command line
//! that lists a proto file's dependencies, and the reading of the dependency file
//! that `protoc` writes, from which `cargo:rerun-if-changed` lines are made.
//!
//! Running `protoc`, reading files and code generation are the caller's part.

use vstd::prelude::*;
use crate::text::{
    chars_of, concat2, contains_chars, contains_seq, lines_of, owned, split_lines, string_of,
    trim_text, trim_ws, views,
};

verus! {

// ---------------------------------------------------------------------------
// Options.
// ---------------------------------------------------------------------------

/// Options of one protobuf build besides those of the code generator itself.
#[derive(Debug, Clone)]
pub struct XaiProtoBuilder {
    /// Where the file descriptor set is written, when the caller chose a place.
    pub file_descriptor_set_path: Option<String>,
    /// Whether `pbjson` serde implementations are generated too.
    pub gen_pbjson: bool,
    /// Whether the generated deserializers ignore unknown fields.
    pub pbjson_ignore_unknown_fields: bool,
    /// Whether JSON keeps the proto field names instead of camelCase.
    pub pbjson_preserve_proto_field_names: bool,
}

/// Where the file descriptor set of a build comes from.
#[derive(Debug, Clone, PartialEq, Eq)]
pub enum DescriptorSetPlan {
    /// The caller's path.
    Given(String),
    /// A file in a temporary directory, needed for `pbjson`.
    Temporary,
    /// No descriptor set is written.
    NotNeeded,
}

impl XaiProtoBuilder {
    /// A build with every option off.
    pub fn new() -> (b: XaiProtoBuilder)
        ensures
            b.file_descriptor_set_path is None,
            !b.gen_pbjson,
            !b.pbjson_ignore_unknown_fields,
            !b.pbjson_preserve_proto_field_names,
    {
        XaiProtoBuilder {
            file_descriptor_set_path: None,
            gen_pbjson: false,
            pbjson_ignore_unknown_fields: false,
            pbjson_preserve_proto_field_names: false,
        }
    }

    /// Writes the file descriptor set to `path`.
    pub fn file_descriptor_set_path(self, path: &str) -> (b: XaiProtoBuilder)
        ensures
            b.file_descriptor_set_path matches Some(p) && p@ == path@,
            b.gen_pbjson == self.gen_pbjson,
            b.pbjson_ignore_unknown_fields == self.pbjson_ignore_unknown_fields,
            b.pbjson_preserve_proto_field_names == self.pbjson_preserve_proto_field_names,
    {
        XaiProtoBuilder { file_descriptor_set_path: Some(owned(path)), ..self }
    }

    /// Generates `pbjson` serde implementations too.
    pub fn gen_pbjson(self) -> (b: XaiProtoBuilder)
        ensures
            b == (XaiProtoBuilder { gen_pbjson: true, ..self }),
    {
        XaiProtoBuilder { gen_pbjson: true, ..self }
    }

    /// Makes the generated deserializers ignore unknown fields.
    pub fn pbjson_ignore_unknown_fields(self) -> (b: XaiProtoBuilder)
        ensures
            b == (XaiProtoBuilder { pbjson_ignore_unknown_fields: true, ..self }),
    {
        XaiProtoBuilder { pbjson_ignore_unknown_fields: true, ..self }
    }

    /// Serializes JSON with the original proto field names (snake_case) instead of
    /// camelCase; deserialization still accepts both.
    pub fn pbjson_preserve_proto_field_names(self) -> (b: XaiProtoBuilder)
        ensures
            b == (XaiProtoBuilder { pbjson_preserve_proto_field_names: true, ..self }),
    {
        XaiProtoBuilder { pbjson_preserve_proto_field_names: true, ..self }
    }

    /// The caller's descriptor set path when there is one; otherwise a temporary
    /// file when `pbjson` needs the descriptors; otherwise none.
    pub fn descriptor_set_plan(&self) -> (p: DescriptorSetPlan)
        ensures
            match self.file_descriptor_set_path {
                Some(path) => p matches DescriptorSetPlan::Given(q) && q@ == path@,
                None => if self.gen_pbjson {
                    p == DescriptorSetPlan::Temporary
                } else {
                    p == DescriptorSetPlan::NotNeeded
                },
            },
    {
        match &self.file_descriptor_set_path {
            Some(path) => DescriptorSetPlan::Given(owned(path.as_str())),
            None => if self.gen_pbjson {
                DescriptorSetPlan::Temporary
            } else {
                DescriptorSetPlan::NotNeeded
            },
        }
    }
}

// ---------------------------------------------------------------------------
// The protoc command line.
// ---------------------------------------------------------------------------

pub open spec fn include_flag(dir: Seq<char>) -> Seq<char> {
    "-I"@ + dir
}

/// The arguments of the `protoc` run that lists one proto file's dependencies:
/// where to write the dependency file and the descriptor set, the well-known types
/// include directory when there is one, then every include directory, then the file.
pub open spec fn protoc_args_of(
    depfile: Seq<char>,
    descriptor_out: Seq<char>,
    protoc_include_dir: Option<Seq<char>>,
    includes: Seq<Seq<char>>,
    proto: Seq<char>,
) -> Seq<Seq<char>> {
    seq!["--dependency_out="@ + depfile, "--descriptor_set_out="@ + descriptor_out] + match protoc_include_dir {
        Some(d) => seq![include_flag(d)],
        None => Seq::empty(),
    } + includes.map_values(|d: Seq<char>| include_flag(d)) + seq![proto]
}

pub open spec fn opt_str_view(o: Option<&str>) -> Option<Seq<char>> {
    match o {
        Some(s) => Some(s@),
        None => None,
    }
}

/// The `protoc` arguments for one proto file.
pub fn protoc_dependency_args(
    depfile: &str,
    descriptor_out: &str,
    protoc_include_dir: Option<&str>,
    includes: &Vec<String>,
    proto: &str,
) -> (r: Vec<String>)
    ensures
        views(r@) == protoc_args_of(
            depfile@,
            descriptor_out@,
            opt_str_view(protoc_include_dir),
            views(includes@),
            proto@,
        ),
{
    let mut r: Vec<String> = Vec::new();
    r.push(concat2("--dependency_out=", depfile));
    r.push(concat2("--descriptor_set_out=", descriptor_out));
    match protoc_include_dir {
        Some(d) => {
            r.push(concat2("-I", d));
        },
        None => {},
    }
    let ghost head = views(r@);
    let mut i: usize = 0;
    while i < includes.len()
        invariant
            i <= includes.len(),
            views(r@) == head + views(includes@).subrange(0, i as int).map_values(
                |d: Seq<char>| include_flag(d),
            ),
        decreases includes.len() - i,
    {
        let flag = concat2("-I", includes[i].as_str());
        proof {
            crate::text::lemma_views_push(r@, flag);
        }
        r.push(flag);
        i += 1;
        proof {
            assert(views(r@) =~= head + views(includes@).subrange(0, i as int).map_values(
                |d: Seq<char>| include_flag(d),
            ));
        }
    }
    let last = owned(proto);
    proof {
        crate::text::lemma_views_push(r@, last);
    }
    r.push(last);
    proof {
        assert(views(includes@).subrange(0, includes@.len() as int) =~= views(includes@));
        assert(views(r@) =~= protoc_args_of(
            depfile@,
            descriptor_out@,
            opt_str_view(protoc_include_dir),
            views(includes@),
            proto@,
        ));
    }
    r
}

/// The include search path of the code generator: the well-known types include
/// directory first, when there is one, then the caller's include directories.
pub fn include_search_path(protoc_include_dir: Option<&str>, includes: &Vec<String>) -> (r: Vec<
    String,
>)
    ensures
        views(r@) == match opt_str_view(protoc_include_dir) {
            Some(d) => seq![d],
            None => Seq::<Seq<char>>::empty(),
        } + views(includes@),
{
    let mut r: Vec<String> = Vec::new();
    match protoc_include_dir {
        Some(d) => {
            r.push(owned(d));
        },
        None => {},
    }
    let ghost head = views(r@);
    let mut i: usize = 0;
    while i < includes.len()
        invariant
            i <= includes.len(),
            views(r@) == head + views(includes@).subrange(0, i as int),
        decreases includes.len() - i,
    {
        let dir = owned(includes[i].as_str());
        proof {
            crate::text::lemma_views_push(r@, dir);
        }
        r.push(dir);
        i += 1;
        proof {
            assert(views(r@) =~= head + views(includes@).subrange(0, i as int));
        }
    }
    proof {
        assert(views(includes@).subrange(0, includes@.len() as int) =~= views(includes@));
    }
    r
}

/// The line that tells cargo to rerun the build when `path` changes.
pub fn rerun_if_changed_line(path: &str) -> (r: String)
    ensures
        r@ == "cargo:rerun-if-changed="@ + path@,
{
    concat2("cargo:rerun-if-changed=", path)
}

// ---------------------------------------------------------------------------
// The dependency file.
// ---------------------------------------------------------------------------

/// One dependency as a line of the dependency file names it: trimmed, without one
/// trailing line-continuation backslash.
pub open spec fn dep_entry(line: Seq<char>) -> Seq<char> {
    let t = trim_ws(line);
    if t.len() > 0 && t.last() == '\\' {
        t.drop_last()
    } else {
        t
    }
}

/// Dependencies inside protoc's own well-known types, which are left out.
pub open spec fn well_known(entry: Seq<char>) -> bool {
    contains_seq(entry, "/include/google/protobuf/"@)
}

/// The dependencies named by a sequence of lines, well-known types left out.
pub open spec fn dependency_entries(lines: Seq<Seq<char>>) -> Seq<Seq<char>>
    decreases lines.len(),
{
    if lines.len() == 0 {
        Seq::empty()
    } else {
        let rest = dependency_entries(lines.drop_last());
        let e = dep_entry(lines.last());
        if well_known(e) {
            rest
        } else {
            rest.push(e)
        }
    }
}

/// Why a dependency file could not be read.
#[derive(Debug, Clone, PartialEq, Eq)]
pub enum DepfileError {
    /// The file has no line.
    Empty,
    /// The first line does not start with the descriptor path and a colon.
    MissingPrefix { prefix: String },
}

pub open spec fn depfile_prefix(descriptor_out: Seq<char>) -> Seq<char> {
    descriptor_out + seq![':']
}

pub open spec fn starts_with(s: Seq<char>, p: Seq<char>) -> bool {
    p.len() <= s.len() && s.subrange(0, p.len() as int) == p
}

/// The dependencies that a dependency file lists for one proto file: the first line
/// starts with `{descriptor_out}:` and the rest of it, with every following line,
/// names one dependency each.
pub open spec fn depfile_entries(output: Seq<char>, descriptor_out: Seq<char>) -> Seq<Seq<char>> {
    let ls = lines_of(output);
    let prefix = depfile_prefix(descriptor_out);
    dependency_entries(seq![ls[0].subrange(prefix.len() as int, ls[0].len() as int)] + ls.drop_first())
}

fn dep_entry_exec(line: &str) -> (r: String)
    ensures
        r@ == dep_entry(line@),
{
    let t = trim_text(line);
    let v = chars_of(t.as_str());
    if v.len() > 0 && v[v.len() - 1] == '\\' {
        let mut w: Vec<char> = Vec::new();
        let mut k: usize = 0;
        while k + 1 < v.len()
            invariant
                k + 1 <= v.len(),
                w@ == v@.subrange(0, k as int),
            decreases v.len() - k,
        {
            w.push(v[k]);
            k += 1;
        }
        proof {
            assert(w@ =~= t@.drop_last());
        }
        string_of(&w)
    } else {
        t
    }
}

/// The rest of `s` after the prefix `p`, when `s` starts with it.
fn strip_prefix_text(s: &str, p: &str) -> (r: Option<String>)
    ensures
        starts_with(s@, p@) ==> (r matches Some(rest) && rest@ == s@.subrange(p@.len() as int, s@.len() as int)),
        !starts_with(s@, p@) ==> r is None,
{
    let sv = chars_of(s);
    let pv = chars_of(p);
    if pv.len() > sv.len() {
        return None;
    }
    let mut k: usize = 0;
    while k < pv.len()
        invariant
            sv@ == s@,
            pv@ == p@,
            pv.len() <= sv.len(),
            k <= pv.len(),
            forall|j: int| 0 <= j < k ==> sv@[j] == pv@[j],
        decreases pv.len() - k,
    {
        if sv[k] != pv[k] {
            proof {
                assert(sv@.subrange(0, pv@.len() as int)[k as int] != pv@[k as int]);
            }
            return None;
        }
        k += 1;
    }
    proof {
        assert(sv@.subrange(0, pv@.len() as int) =~= pv@);
    }
    let mut w: Vec<char> = Vec::new();
    let mut j: usize = pv.len();
    while j < sv.len()
        invariant
            pv.len() <= j <= sv.len(),
            w@ == sv@.subrange(pv@.len() as int, j as int),
        decreases sv.len() - j,
    {
        w.push(sv[j]);
        j += 1;
        proof {
            assert(w@ =~= sv@.subrange(pv@.len() as int, j as int));
        }
    }
    Some(string_of(&w))
}

/// Reads the dependency file that `protoc --dependency_out` wrote for one proto
/// file: the dependencies to check and report, in order, leaving out protoc's own
/// well-known types; an error when the file is empty or its first line does not
/// start with `{descriptor_out}:`.
pub fn parse_dependency_output(output: &str, descriptor_out: &str) -> (r: Result<
    Vec<String>,
    DepfileError,
>)
    ensures
        lines_of(output@).len() == 0 <==> r == Err::<Vec<String>, DepfileError>(DepfileError::Empty),
        lines_of(output@).len() > 0 && !starts_with(lines_of(output@)[0], depfile_prefix(descriptor_out@))
            <==> r matches Err(DepfileError::MissingPrefix { prefix }),
        r matches Err(DepfileError::MissingPrefix { prefix }) ==> prefix@ == depfile_prefix(descriptor_out@),
        r matches Ok(deps) ==> views(deps@) == depfile_entries(output@, descriptor_out@),
{
    let lines = split_lines(output);
    if lines.len() == 0 {
        return Err(DepfileError::Empty);
    }
    let prefix = concat2(descriptor_out, ":");
    proof {
        reveal_strlit(":");
        assert(prefix@ =~= depfile_prefix(descriptor_out@));
    }
    let rem = match strip_prefix_text(lines[0].as_str(), prefix.as_str()) {
        Some(rest) => rest,
        None => {
            return Err(DepfileError::MissingPrefix { prefix });
        },
    };
    let ghost ls = lines_of(output@);
    let ghost all: Seq<Seq<char>> = seq![rem@] + ls.drop_first();
    let marker = chars_of("/include/google/protobuf/");
    let mut deps: Vec<String> = Vec::new();
    let mut k: usize = 0;
    while k < lines.len()
        invariant
            views(lines@) == ls,
            all.len() == ls.len(),
            all == seq![rem@] + ls.drop_first(),
            marker@ == "/include/google/protobuf/"@,
            k <= lines.len(),
            views(deps@) == dependency_entries(all.subrange(0, k as int)),
        decreases lines.len() - k,
    {
        proof {
            assert(all.subrange(0, k + 1).drop_last() =~= all.subrange(0, k as int));
        }
        let e = if k == 0 {
            dep_entry_exec(rem.as_str())
        } else {
            dep_entry_exec(lines[k].as_str())
        };
        proof {
            assert(all.subrange(0, k + 1).last() == all[k as int]);
            assert(k > 0 ==> all[k as int] == ls[k as int]);
        }
        let known = contains_chars(&chars_of(e.as_str()), &marker);
        if !known {
            proof {
                crate::text::lemma_views_push(deps@, e);
            }
            deps.push(e);
        }
        k += 1;
    }
    proof {
        assert(all.subrange(0, all.len() as int) =~= all);
    }
    Ok(deps)
}

// ---------------------------------------------------------------------------
// Paths.
// ---------------------------------------------------------------------------

pub open spec fn ends_with(s: Seq<char>, suffix: Seq<char>) -> bool {
    suffix.len() <= s.len() && s.subrange(s.len() - suffix.len(), s.len() as int) == suffix
}

/// `std::path::Path::parent`: the path without its last component, `None` for a
/// root or an empty path. The contract claims only that the parent is a shorter
/// prefix of the path; which prefix depends on the platform's separators.
#[verifier::external_body]
fn path_parent(path: &str) -> (r: Option<String>)
    ensures
        r matches Some(q) ==> q@.len() < path@.len() && q@ == path@.subrange(0, q@.len() as int),
{
    match std::path::Path::new(path).parent() {
        Some(q) => Some(q.to_string_lossy().into_owned()),
        None => None,
    }
}

/// A single plain path component: no separator, no colon, not `.` or `..`.
pub open spec fn plain_component(leaf: Seq<char>) -> bool {
    &&& !leaf.contains('/')
    &&& !leaf.contains('\\')
    &&& !leaf.contains(':')
    &&& leaf != "."@
    &&& leaf != ".."@
}

/// `std::path::Path::join`: `leaf` appended to `base` with a separator when one
/// is needed. For a plain component (see [`plain_component`]) nothing in `leaf` is
/// rewritten or replaces the base, so the result ends with `leaf`; that is all the
/// contract claims, as the separator depends on the platform.
#[verifier::external_body]
fn path_join(base: &str, leaf: &str) -> (r: String)
    requires
        plain_component(leaf@),
    ensures
        ends_with(r@, leaf@),
{
    std::path::Path::new(base).join(leaf).to_string_lossy().into_owned()
}

/// A path that starts at a root or a drive: it begins with a separator or holds a
/// drive or verbatim prefix (a colon).
pub open spec fn rooted(path: Seq<char>) -> bool {
    (path.len() > 0 && (path[0] == '/' || path[0] == '\\')) || path.contains(':')
}

/// `std::path::Path::is_absolute`. What counts as absolute depends on the platform
/// (a leading `/` on Unix, a drive or UNC prefix with a root on Windows); the
/// contract claims only that an absolute path is rooted in the sense of [`rooted`].
#[verifier::external_body]
fn path_is_absolute(path: &str) -> (r: bool)
    ensures
        r ==> rooted(path@),
{
    std::path::Path::new(path).is_absolute()
}

/// Where protoc's well-known types usually are, given the protoc binary: the
/// `include` directory beside the binary's `bin` directory; `None` when the path
/// has no grandparent. Whether the directory exists is the caller's check.
pub fn protoc_include_candidate(protoc: &str) -> (r: Option<String>)
    ensures
        r matches Some(c) ==> ends_with(c@, "include"@),
{
    let parent = match path_parent(protoc) {
        Some(p) => p,
        None => {
            return None;
        },
    };
    let grandparent = match path_parent(parent.as_str()) {
        Some(g) => g,
        None => {
            return None;
        },
    };
    proof {
        reveal_strlit("include");
        reveal_strlit(".");
        reveal_strlit("..");
        assert(!"include"@.contains('/') && !"include"@.contains('\\') && !"include"@.contains(':'));
        assert("include"@ != "."@ && "include"@ != ".."@);
    }
    Some(path_join(grandparent.as_str(), "include"))
}

pub open spec fn absolute_path_message(path: Seq<char>) -> Seq<char> {
    "Absolute paths are not allowed: "@ + path
}

/// Rejects the first proto file that is absolute: `absolute[i]` tells whether
/// `protos[i]` is an absolute path.
pub fn reject_absolute_protos(protos: &Vec<String>, absolute: &Vec<bool>) -> (r: Result<(), String>)
    requires
        protos.len() == absolute.len(),
    ensures
        r is Ok <==> forall|i: int| 0 <= i < absolute.len() ==> !absolute@[i],
        r matches Err(m) ==> exists|i: int|
            0 <= i < absolute.len() && absolute@[i] && (forall|j: int| 0 <= j < i ==> !absolute@[j])
                && m@ == absolute_path_message(protos@[i]@),
{
    let mut i: usize = 0;
    while i < protos.len()
        invariant
            protos.len() == absolute.len(),
            i <= protos.len(),
            forall|j: int| 0 <= j < i ==> !absolute@[j],
        decreases protos.len() - i,
    {
        if absolute[i] {
            return Err(concat2("Absolute paths are not allowed: ", protos[i].as_str()));
        }
        i += 1;
    }
    Ok(())
}

/// Checks that every proto file is given by a relative path; the message names the
/// first that is not.
pub fn check_protos_relative(protos: &Vec<String>) -> (r: Result<(), String>)
    ensures
        r matches Err(m) ==> exists|i: int|
            0 <= i < protos.len() && rooted(protos@[i]@) && m@ == absolute_path_message(protos@[i]@),
        (forall|i: int| 0 <= i < protos.len() ==> !rooted(#[trigger] protos@[i]@)) ==> r is Ok,
{
    let mut absolute: Vec<bool> = Vec::new();
    let mut i: usize = 0;
    while i < protos.len()
        invariant
            i <= protos.len(),
            absolute.len() == i,
            forall|j: int| 0 <= j < i ==> absolute@[j] ==> rooted(#[trigger] protos@[j]@),
        decreases protos.len() - i,
    {
        absolute.push(path_is_absolute(protos[i].as_str()));
        i += 1;
    }
    reject_absolute_protos(protos, &absolute)
}

// ---------------------------------------------------------------------------
// Laws.
// ---------------------------------------------------------------------------

/// No reported dependency lies inside protoc's own well-known types, and a
/// dependency file never yields more dependencies than it has lines.
pub proof fn law_well_known_types_never_reported(lines: Seq<Seq<char>>)
    ensures
        forall|i: int| 0 <= i < dependency_entries(lines).len() ==> !well_known(
            #[trigger] dependency_entries(lines)[i],
        ),
        dependency_entries(lines).len() <= lines.len(),
    decreases lines.len(),
{
    if lines.len() > 0 {
        law_well_known_types_never_reported(lines.drop_last());
    }
}

} // verus!
