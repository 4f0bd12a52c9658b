use vstd::prelude::*;

use crate::calldata::Address;
use crate::text::hex_encode;
use crate::ustar::{Archive, SharedBytes};

verus! {

/// Whether a VM runs deterministically (the consensus part) or not.
#[derive(Clone, Copy, PartialEq, Eq, Debug, Structural)]
pub enum WasmMode {
    Det,
    Nondet,
}

/// Calls `hex::encode`, which writes each byte as two lowercase hexadecimal digits.
#[verifier::external_body]
fn hex_lower(bytes: &[u8]) -> (r: String)
    ensures
        r@ == hex_encode(bytes@),
{
    hex::encode(bytes)
}

/// The runner id under which the code of the contract at `address` is known.
pub open spec fn spec_contract_id(address: Seq<u8>) -> Seq<char> {
    "on_chain:0x"@ + hex_encode(address)
}

/// The runner id under which the code of the contract at `address` is known: `on_chain:0x`
/// and the address in lowercase hexadecimal.
pub fn get_id_of_contract(address: Address) -> (r: String)
    ensures
        r@ == spec_contract_id(address@),
{
    let raw = address.raw();
    let hex = hex_lower(&raw);
    let r = String::from_str("on_chain:0x").concat(hex.as_str());
    proof {
        reveal_strlit("on_chain:0x");
    }
    r
}

/// What a runner's `runner.json` asks for, to set up a VM.
pub enum InitAction {
    /// Map a file of the current runner (or, when `file` ends in `/`, every file under that
    /// directory) into the VM's file system at `to`.
    MapFile { to: String, file: String },
    /// Set an environment variable; the value may refer to the variables set before.
    AddEnv { name: String, val: String },
    /// Set the program arguments.
    SetArgs(Vec<String>),
    /// Apply another runner's actions, once.
    Depends(String),
    /// Instantiate a wasm module of the current runner and register it under its name.
    LinkWasm(String),
    /// Instantiate the main wasm module of the current runner; this ends the actions.
    StartWasm(String),
    /// Apply the action only in the given mode.
    When { cond: WasmMode, action: Box<InitAction> },
    /// Apply the actions in order, up to the first that starts a module.
    Sequence(Vec<InitAction>),
    /// Apply the action with another runner (or the contract itself, `<contract>`) as the
    /// current one.
    With { runner: String, action: Box<InitAction> },
}

/// Why a runner id or a runner's file is refused.
#[derive(Debug)]
pub enum RunnerError {
    /// The id is not of the form `<name>:<hash>`.
    NotNameAndHash,
    /// A character that a runner name may not hold.
    BadNameChar(char),
    /// A character that a runner hash may not hold.
    BadHashChar(char),
    /// The runner has no such file.
    NoFile { runner: String, name: String },
}

/// An ASCII letter or digit.
pub open spec fn is_ascii_alnum(c: char) -> bool {
    ('a' <= c && c <= 'z') || ('A' <= c && c <= 'Z') || ('0' <= c && c <= '9')
}

/// The characters of a runner name: ASCII letters and digits, `-` and `_`; a hash may also
/// hold `=`.
pub open spec fn allowed_runner_char(c: char, in_hash: bool) -> bool {
    is_ascii_alnum(c) || c == '-' || c == '_' || (in_hash && c == '=')
}

/// `k` is the position of the only `:` in `s`.
pub open spec fn only_colon_at(s: Seq<char>, k: int) -> bool {
    &&& 0 <= k < s.len()
    &&& s[k] == ':'
    &&& forall|j: int| 0 <= j < s.len() && j != k ==> s[j] != ':'
}

/// `s` holds exactly one `:`.
pub open spec fn has_one_colon(s: Seq<char>) -> bool {
    exists|k: int| only_colon_at(s, k)
}

/// Every character of `s` is allowed.
pub open spec fn all_allowed(s: Seq<char>, in_hash: bool) -> bool {
    forall|j: int| 0 <= j < s.len() ==> allowed_runner_char(#[trigger] s[j], in_hash)
}

/// `c` is the first character of `s` that is not allowed.
pub open spec fn first_refused(s: Seq<char>, in_hash: bool, c: char) -> bool {
    exists|i: int|
        0 <= i < s.len() && s[i] == c && !allowed_runner_char(c, in_hash) && all_allowed(
            #[trigger] s.take(i),
            in_hash,
        )
}

fn allowed_char(c: char, in_hash: bool) -> (r: bool)
    ensures
        r == allowed_runner_char(c, in_hash),
{
    ('a' <= c && c <= 'z') || ('A' <= c && c <= 'Z') || ('0' <= c && c <= '9') || c == '-' || c
        == '_' || (in_hash && c == '=')
}

/// The first character of `s[from..to]` that is not allowed, if any.
fn find_refused(s: &str, from: usize, to: usize, in_hash: bool) -> (r: Option<char>)
    requires
        from <= to <= s@.len(),
    ensures
        r is None <==> all_allowed(s@.subrange(from as int, to as int), in_hash),
        r matches Some(c) ==> first_refused(s@.subrange(from as int, to as int), in_hash, c),
{
    let ghost part = s@.subrange(from as int, to as int);
    let mut i: usize = from;
    while i < to
        invariant
            from <= i <= to <= s@.len(),
            part == s@.subrange(from as int, to as int),
            all_allowed(part.take(i - from), in_hash),
        decreases to - i,
    {
        let c = s.get_char(i);
        if !allowed_char(c, in_hash) {
            assert(part[i - from] == c);
            return Some(c);
        }
        assert(part.take(i + 1 - from) =~= part.take(i - from).push(c));
        i = i + 1;
    }
    assert(part.take(to - from) =~= part);
    None
}

/// Splits a runner id `<name>:<hash>` and checks both parts: a name of ASCII letters, digits,
/// `-` and `_`; a hash of the same and `=`.
pub fn verify_runner(runner_id: &str) -> (r: Result<(&str, &str), RunnerError>)
    ensures
        !has_one_colon(runner_id@) <==> r matches Err(RunnerError::NotNameAndHash),
        forall|k: int|
            only_colon_at(runner_id@, k) ==> {
                let name = runner_id@.take(k);
                let hash = runner_id@.skip(k + 1);
                &&& (r is Ok <==> all_allowed(name, false) && all_allowed(hash, true))
                &&& (r matches Ok((n, h)) ==> n@ == name && h@ == hash)
                &&& ((r is Err && r->Err_0 is BadNameChar) <==> !all_allowed(name, false))
                &&& (r matches Err(RunnerError::BadNameChar(c)) ==> first_refused(name, false, c))
                &&& ((r is Err && r->Err_0 is BadHashChar) <==> all_allowed(name, false)
                    && !all_allowed(hash, true))
                &&& (r matches Err(RunnerError::BadHashChar(c)) ==> first_refused(hash, true, c))
            },
{
    let n = runner_id.unicode_len();
    let mut colon: Option<usize> = None;
    let mut i: usize = 0;
    while i < n
        invariant
            n == runner_id@.len(),
            0 <= i <= n,
            colon matches Some(k) ==> k < i && runner_id@[k as int] == ':' && forall|j: int|
                0 <= j < i && j != k ==> runner_id@[j] != ':',
            colon is None ==> forall|j: int| 0 <= j < i ==> runner_id@[j] != ':',
        decreases n - i,
    {
        if runner_id.get_char(i) == ':' {
            match colon {
                Some(k) => {
                    assert(!has_one_colon(runner_id@)) by {
                        if has_one_colon(runner_id@) {
                            let m = choose|m: int| only_colon_at(runner_id@, m);
                            assert(runner_id@[k as int] == ':');
                            assert(runner_id@[i as int] == ':');
                        }
                    }
                    return Err(RunnerError::NotNameAndHash);
                },
                None => {
                    colon = Some(i);
                },
            }
        }
        i = i + 1;
    }
    let k = match colon {
        None => {
            assert(!has_one_colon(runner_id@)) by {
                if has_one_colon(runner_id@) {
                    let m = choose|m: int| only_colon_at(runner_id@, m);
                    assert(runner_id@[m] == ':');
                }
            }
            return Err(RunnerError::NotNameAndHash);
        },
        Some(k) => k,
    };
    assert(only_colon_at(runner_id@, k as int));
    assert(forall|m: int| only_colon_at(runner_id@, m) ==> m == k);
    assert(runner_id@.subrange(0, k as int) =~= runner_id@.take(k as int));
    assert(runner_id@.subrange(k + 1, n as int) =~= runner_id@.skip(k + 1));
    if let Some(c) = find_refused(runner_id, 0, k, false) {
        return Err(RunnerError::BadNameChar(c));
    }
    if let Some(c) = find_refused(runner_id, k + 1, n, true) {
        return Err(RunnerError::BadHashChar(c));
    }
    Ok((runner_id.substring_char(0, k), runner_id.substring_char(k + 1, n)))
}


/// A loaded runner: its id, its files, and its actions once they were read.
pub struct ZipCache {
    pub id: String,
    pub actions: Option<InitAction>,
    pub files: Archive,
}

impl ZipCache {
    /// The runner's id.
    pub open spec fn id(&self) -> Seq<char> {
        self.id@
    }

    /// The actions read so far.
    pub open spec fn cached_actions(&self) -> Option<InitAction> {
        self.actions
    }

    /// A runner `id` with files `files`, whose actions are not read yet.
    pub fn new(id: String, files: Archive) -> (r: ZipCache)
        ensures
            r.id() == id@,
            r.files == files,
            r.cached_actions() is None,
    {
        ZipCache { id, files, actions: None }
    }

    /// The runner's id.
    pub fn runner_id(&self) -> (r: &str)
        ensures
            r@ == self.id(),
    {
        self.id.as_str()
    }

    /// The file `name` of the runner.
    pub fn get_file(&self, name: &str) -> (r: Result<SharedBytes, RunnerError>)
        ensures
            r is Ok <==> self.files.files().contains_key(name@),
            r matches Ok(v) ==> v@ == self.files.files()[name@],
            r matches Err(e) ==> (e matches RunnerError::NoFile { runner, name: n } && runner@
                == self.id() && n@ == name@),
    {
        match self.files.data.get(name) {
            Some(v) => Ok(v.share()),
            None => Err(RunnerError::NoFile { runner: self.id.clone(), name: String::from_str(name) }),
        }
    }

    /// The file that holds the runner's actions.
    pub fn actions_file(&self) -> (r: Result<SharedBytes, RunnerError>)
        requires
        ensures
            r is Ok <==> self.files.files().contains_key("runner.json"@),
            r matches Ok(v) ==> v@ == self.files.files()["runner.json"@],
    {
        self.get_file("runner.json")
    }

    /// The actions, when they were read already.
    pub fn actions(&self) -> (r: Option<&InitAction>)
        ensures
            r == match self.cached_actions() {
                Some(a) => Some(&a),
                None => None::<&InitAction>,
            },
    {
        match &self.actions {
            Some(a) => Some(a),
            None => None,
        }
    }

    /// Keeps the actions that were read, for the next time they are asked for.
    pub fn store_actions(&mut self, actions: InitAction)
        ensures
            final(self).cached_actions() == Some(actions),
            final(self).id == old(self).id,
            final(self).files == old(self).files,
    {
        self.actions = Some(actions);
    }
}

/// A runner hash that asks for the newest build of the runner.
pub open spec fn spec_wants_latest(hash: Seq<char>) -> bool {
    hash == "test"@ || hash == "latest"@
}

/// Whether a runner hash asks for the newest build of the runner (`test` or `latest`).
pub fn wants_latest(hash: &str) -> (r: bool)
    ensures
        r == spec_wants_latest(hash@),
{
    crate::text::str_equal(hash, "test") || crate::text::str_equal(hash, "latest")
}

/// The archive file of a runner build: `<hash>.tar`, where a `test` or `latest` hash stands for
/// the newest build when the registry names one.
pub open spec fn spec_tar_name(hash: Seq<char>, latest: Option<String>) -> Seq<char> {
    match latest {
        Some(l) => if spec_wants_latest(hash) {
            l@ + ".tar"@
        } else {
            hash + ".tar"@
        },
        None => hash + ".tar"@,
    }
}

/// Why the archive of a runner cannot be located.
#[derive(Debug)]
pub enum LocateError {
    /// The id is refused.
    Id(RunnerError),
    /// The newest build was asked for, but this run does not allow it.
    LatestNotAllowed,
}

/// Where the archive of runner `id` lies, under the runners' directory: the runner's name as a
/// directory and `<hash>.tar` in it. A `test` or `latest` hash is refused unless
/// `allow_latest`; then `latest`, the hash that the registry of newest builds gives for the
/// runner (if it has one), is used in its place.
pub fn runner_archive_path(id: &str, allow_latest: bool, latest: Option<String>) -> (r: Result<
    (String, String),
    LocateError,
>)
    ensures
        !has_one_colon(id@) ==> r matches Err(LocateError::Id(RunnerError::NotNameAndHash)),
        forall|k: int|
            only_colon_at(id@, k) ==> {
                let name = id@.take(k);
                let hash = id@.skip(k + 1);
                let ok_id = all_allowed(name, false) && all_allowed(hash, true);
                &&& (!ok_id ==> r matches Err(LocateError::Id(_)))
                &&& (ok_id && spec_wants_latest(hash) && !allow_latest ==> r matches Err(
                    LocateError::LatestNotAllowed,
                ))
                &&& (ok_id && (!spec_wants_latest(hash) || allow_latest) ==> (r matches Ok(
                    (dir, file),
                ) && dir@ == name && file@ == spec_tar_name(hash, latest)))
            },
{
    let (name, hash) = match verify_runner(id) {
        Ok(p) => p,
        Err(e) => {
            return Err(LocateError::Id(e));
        },
    };
    let mut file = String::from_str(hash);
    if wants_latest(hash) {
        if !allow_latest {
            return Err(LocateError::LatestNotAllowed);
        }
        if let Some(l) = latest {
            file = l;
        }
    }
    file.append(".tar");
    Ok((String::from_str(name), file))
}

/// A wasm module of a runner, with the id it is cached under.
pub struct WasmFileDesc {
    pub contents: SharedBytes,
    pub runner_id: String,
    pub path_in_arch: String,
    pub wasm_uid: String,
}

impl WasmFileDesc {
    /// Module `path_in_arch` of runner `runner_id`; it is cached under
    /// `<runner_id>:<path_in_arch>`.
    pub fn new(contents: SharedBytes, runner_id: String, path_in_arch: String) -> (r: WasmFileDesc)
        ensures
            r.contents == contents,
            r.runner_id == runner_id,
            r.path_in_arch == path_in_arch,
            r.wasm_uid@ == runner_id@ + seq![':'] + path_in_arch@,
    {
        let mut wasm_uid = runner_id.clone();
        wasm_uid.append(":");
        wasm_uid.append(path_in_arch.as_str());
        proof {
            reveal_strlit(":");
        }
        WasmFileDesc { contents, runner_id, path_in_arch, wasm_uid }
    }

    /// The id the module is cached under, which also names it in traces.
    pub fn debug_path(&self) -> (r: &str)
        ensures
            r@ == self.wasm_uid@,
    {
        self.wasm_uid.as_str()
    }

    /// Whether the module belongs to a runner that is not an archive of the runners'
    /// directory (its id starts with `<`); no precompiled form exists for such a module.
    pub fn is_special(&self) -> (r: bool)
        ensures
            r == (self.runner_id@.len() > 0 && self.runner_id@[0] == '<'),
    {
        self.runner_id.unicode_len() > 0 && self.runner_id.as_str().get_char(0) == '<'
    }
}

/// The name under `to` of a file `name` of directory `dir`: `to`, a `/` unless `to` ends with
/// one, and the rest of `name` after `dir`.
pub open spec fn spec_name_in_fs(to: Seq<char>, dir: Seq<char>, name: Seq<char>) -> Seq<char> {
    (if to.len() > 0 && to.last() == '/' {
        to
    } else {
        to.push('/')
    }) + name.skip(dir.len() as int)
}

/// A file of `dir`: its name starts with `dir` and does not end with `/`.
pub open spec fn in_dir(dir: Seq<char>, name: Seq<char>) -> bool {
    &&& dir.len() <= name.len()
    &&& name.take(dir.len() as int) == dir
    &&& !(name.len() > 0 && name.last() == '/')
}

/// The files of `dir` among the entries, each with its name under `to`, in the entries' order
/// (which for an archive is name order).
pub open spec fn spec_dir_files(entries: Seq<(String, SharedBytes)>, dir: Seq<char>, to: Seq<char>) -> Seq<
    (Seq<char>, Seq<u8>),
>
    decreases entries.len(),
{
    if entries.len() == 0 {
        Seq::empty()
    } else {
        let rest = spec_dir_files(entries.drop_last(), dir, to);
        let (name, contents) = entries.last();
        if in_dir(dir, name@) {
            rest.push((spec_name_in_fs(to, dir, name@), contents@))
        } else {
            rest
        }
    }
}

/// The files that mapping directory `dir` of an archive to `to` places, with their names
/// under `to`.
pub fn dir_files(files: &Archive, dir: &str, to: &str) -> (r: Vec<(String, SharedBytes)>)
    ensures
        r@.len() == spec_dir_files(files.data.spec_entries(), dir@, to@).len(),
        forall|i: int|
            0 <= i < r@.len() ==> (#[trigger] r@[i]).0@ == spec_dir_files(files.data.spec_entries(), dir@, to@)[i].0
                && r@[i].1@ == spec_dir_files(files.data.spec_entries(), dir@, to@)[i].1,
{
    let entries = files.data.entries();
    let mut base = String::from_str(to);
    if !crate::actions::str_ends_with_slash(to) {
        base.append("/");
    }
    proof {
        reveal_strlit("/");
    }
    let dlen = dir.unicode_len();
    let mut r: Vec<(String, SharedBytes)> = Vec::new();
    let mut i: usize = 0;
    while i < entries.len()
        invariant
            0 <= i <= entries@.len(),
            dlen == dir@.len(),
            base@ == (if to@.len() > 0 && to@.last() == '/' {
                to@
            } else {
                to@.push('/')
            }),
            r@.len() == spec_dir_files(entries@.take(i as int), dir@, to@).len(),
            forall|j: int|
                0 <= j < r@.len() ==> (#[trigger] r@[j]).0@ == spec_dir_files(
                    entries@.take(i as int),
                    dir@,
                    to@,
                )[j].0 && r@[j].1@ == spec_dir_files(entries@.take(i as int), dir@, to@)[j].1,
        decreases entries@.len() - i,
    {
        let name = entries[i].0.as_str();
        let ghost prefix = entries@.take(i as int);
        assert(entries@.take(i + 1).drop_last() =~= prefix);
        let keep = starts_with_dir(name, dir) && !crate::actions::str_ends_with_slash(name);
        if keep {
            let n = name.unicode_len();
            let rest = name.substring_char(dlen, n);
            let mut full = base.clone();
            full.append(rest);
            assert(rest@ =~= name@.skip(dlen as int));
            r.push((full, entries[i].1.share()));
        }
        i = i + 1;
    }
    assert(entries@.take(entries@.len() as int) =~= entries@);
    r
}

fn starts_with_dir(name: &str, dir: &str) -> (r: bool)
    ensures
        r == (dir@.len() <= name@.len() && name@.take(dir@.len() as int) == dir@),
{
    let r = crate::text::starts_with_str(name, dir);
    proof {
        if dir@.len() <= name@.len() {
            assert(name@.subrange(0, dir@.len() as int) =~= name@.take(dir@.len() as int));
        }
    }
    r
}


/// The loaded runners, at most one per id.
pub struct RunnerCache {
    entries: Vec<ZipCache>,
}

impl RunnerCache {
    /// The loaded runners.
    pub closed spec fn runners(&self) -> Seq<ZipCache> {
        self.entries@
    }

    #[verifier::type_invariant]
    spec fn inv(self) -> bool {
        forall|i: int, j: int|
            0 <= i < j < self.entries@.len() ==> self.entries@[i].id@ != self.entries@[j].id@
    }

    /// No runner loaded.
    pub fn new() -> (r: RunnerCache)
        ensures
            r.runners().len() == 0,
    {
        RunnerCache { entries: Vec::new() }
    }

    /// Where runner `id` is, if it is loaded.
    pub fn position(&self, id: &str) -> (r: Option<usize>)
        ensures
            match r {
                Some(i) => i < self.runners().len() && self.runners()[i as int].id@ == id@,
                None => forall|i: int| 0 <= i < self.runners().len() ==> self.runners()[i].id@ != id@,
            },
    {
        let mut i: usize = 0;
        while i < self.entries.len()
            invariant
                0 <= i <= self.entries@.len(),
                forall|j: int| 0 <= j < i ==> self.entries@[j].id@ != id@,
            decreases self.entries@.len() - i,
        {
            if crate::text::str_equal(self.entries[i].id.as_str(), id) {
                return Some(i);
            }
            i = i + 1;
        }
        None
    }

    /// The runner at position `i`.
    pub fn get(&self, i: usize) -> (r: &ZipCache)
        requires
            i < self.runners().len(),
        ensures
            *r == self.runners()[i as int],
    {
        &self.entries[i]
    }

    /// Adds a runner that is not loaded yet, and says where it is.
    pub fn insert(&mut self, z: ZipCache) -> (r: usize)
        requires
            forall|i: int| 0 <= i < old(self).runners().len() ==> old(self).runners()[i].id@ != z.id@,
        ensures
            final(self).runners() == old(self).runners().push(z),
            r == old(self).runners().len(),
    {
        proof {
            use_type_invariant(&*self);
        }
        let r = self.entries.len();
        let mut entries: Vec<ZipCache> = Vec::new();
        std::mem::swap(&mut entries, &mut self.entries);
        let ghost before = entries@;
        assert(before == old(self).entries@);
        entries.push(z);
        assert forall|i: int, j: int|
            0 <= i < j < entries@.len() implies entries@[i].id@ != entries@[j].id@ by {
            if j < before.len() {
                assert(entries@[i] == before[i] && entries@[j] == before[j]);
            } else {
                assert(entries@[i] == before[i]);
                assert(entries@[j] == z);
                assert(old(self).runners()[i].id@ != z.id@);
            }
        }
        self.entries = entries;
        r
    }

    /// Keeps the actions read for the runner at position `i`.
    pub fn store_actions(&mut self, i: usize, actions: InitAction)
        requires
            i < old(self).runners().len(),
        ensures
            final(self).runners().len() == old(self).runners().len(),
            final(self).runners()[i as int].cached_actions() == Some(actions),
            final(self).runners()[i as int].id == old(self).runners()[i as int].id,
            final(self).runners()[i as int].files == old(self).runners()[i as int].files,
            forall|j: int|
                0 <= j < old(self).runners().len() && j != i ==> final(self).runners()[j] == old(
                    self,
                ).runners()[j],
    {
        proof {
            use_type_invariant(&*self);
        }
        let mut entries: Vec<ZipCache> = Vec::new();
        std::mem::swap(&mut entries, &mut self.entries);
        let ghost before = entries@;
        let mut z = entries.remove(i);
        z.store_actions(actions);
        entries.insert(i, z);
        assert forall|a: int, b: int|
            0 <= a < b < entries@.len() implies entries@[a].id@ != entries@[b].id@ by {
            assert(entries@[a].id == before[a].id);
            assert(entries@[b].id == before[b].id);
        }
        self.entries = entries;
    }
}

/// Why a module has no precompiled form.
#[derive(Debug)]
pub enum PrecompiledError {
    /// Its runner is not an archive of the runners' directory.
    Special,
    /// Its runner id is refused.
    Id(RunnerError),
}

/// The runner name and hash under which the precompiled form of a module is kept.
pub fn precompiled_location(desc: &WasmFileDesc) -> (r: Result<(&str, &str), PrecompiledError>)
    ensures
        desc.runner_id@.len() > 0 && desc.runner_id@[0] == '<' ==> r matches Err(
            PrecompiledError::Special,
        ),
        !(desc.runner_id@.len() > 0 && desc.runner_id@[0] == '<') ==> match verify_runner_spec(
            desc.runner_id@,
        ) {
            Some((n, h)) => r matches Ok((a, b)) && a@ == n && b@ == h,
            None => r matches Err(PrecompiledError::Id(_)),
        },
{
    if desc.is_special() {
        return Err(PrecompiledError::Special);
    }
    match verify_runner(desc.runner_id.as_str()) {
        Ok(p) => Ok(p),
        Err(e) => Err(PrecompiledError::Id(e)),
    }
}

/// The name and hash of an accepted runner id.
pub open spec fn verify_runner_spec(id: Seq<char>) -> Option<(Seq<char>, Seq<char>)> {
    if exists|k: int|
        only_colon_at(id, k) && all_allowed(id.take(k), false) && all_allowed(id.skip(k + 1), true) {
        let k = choose|k: int|
            only_colon_at(id, k) && all_allowed(id.take(k), false) && all_allowed(id.skip(k + 1), true);
        Some((id.take(k), id.skip(k + 1)))
    } else {
        None
    }
}


/// Hexadecimal text is twice as long as its bytes.
pub proof fn lemma_hex_len(b: Seq<u8>)
    ensures
        hex_encode(b).len() == 2 * b.len(),
    decreases b.len(),
{
    if b.len() > 0 {
        lemma_hex_len(b.drop_last());
    }
}

/// Different bytes have different hexadecimal texts.
pub proof fn lemma_hex_injective(a: Seq<u8>, b: Seq<u8>)
    requires
        hex_encode(a) == hex_encode(b),
    ensures
        a == b,
    decreases a.len(),
{
    lemma_hex_len(a);
    lemma_hex_len(b);
    if a.len() > 0 {
        let (x, y) = (hex_encode(a), hex_encode(b));
        let n = x.len();
        assert(x.take(n - 2) == hex_encode(a.drop_last()));
        assert(y.take(n - 2) == hex_encode(b.drop_last())) by {
            lemma_hex_len(b.drop_last());
        }
        lemma_hex_len(a.drop_last());
        assert(x.take(n - 2) =~= y.take(n - 2));
        lemma_hex_injective(a.drop_last(), b.drop_last());
        let (p, q) = (a.last(), b.last());
        assert(x[n - 2] == crate::text::hex_digit((p / 16) as nat));
        assert(y[n - 2] == crate::text::hex_digit((q / 16) as nat));
        assert(x[n - 1] == crate::text::hex_digit((p % 16) as nat));
        assert(y[n - 1] == crate::text::hex_digit((q % 16) as nat));
        assert(p / 16 == q / 16 && p % 16 == q % 16) by {
            let (d1, d2, e1, e2) = (p / 16, q / 16, p % 16, q % 16);
            assert(d1 < 16 && d2 < 16 && e1 < 16 && e2 < 16);
        }
        assert(a =~= a.drop_last().push(p));
        assert(b =~= b.drop_last().push(q));
    }
}

/// Two contracts share a runner id only when they share an address.
pub proof fn lemma_contract_id_injective(a: Seq<u8>, b: Seq<u8>)
    requires
        spec_contract_id(a) == spec_contract_id(b),
    ensures
        a == b,
{
    let p = "on_chain:0x"@;
    assert(spec_contract_id(a).skip(p.len() as int) =~= hex_encode(a));
    assert(spec_contract_id(b).skip(p.len() as int) =~= hex_encode(b));
    lemma_hex_injective(a, b);
}

/// An accepted runner id is its name, a `:` and its hash.
pub proof fn lemma_runner_id_parts(id: Seq<char>, k: int)
    requires
        only_colon_at(id, k),
    ensures
        id.take(k) + seq![':'] + id.skip(k + 1) == id,
{
    assert(id.take(k) + seq![':'] + id.skip(k + 1) =~= id);
}

} // verus!
