//! Marshalling of byte strings into the null-terminated layout the
//! operating system's `exec` calls require.
//!
//! Every string handed to the OS must be copied into a buffer that ends in
//! a single null byte and contains no other null byte; an input containing
//! a null byte cannot be represented and is rejected with a [`NulError`]
//! identifying the first offending position.

use vstd::prelude::*;

verus! {

use crate::error::Error;
use crate::error::NulError;

/// A byte sequence contains a null byte somewhere.
pub open spec fn contains_nul(s: Seq<u8>) -> bool {
    exists|i: int| 0 <= i < s.len() && s[i] == 0u8
}

/// `i` is the position of the first null byte of `s`.
pub open spec fn is_first_nul(s: Seq<u8>, i: int) -> bool {
    &&& 0 <= i < s.len()
    &&& s[i] == 0u8
    &&& forall|j: int| 0 <= j < i ==> s[j] != 0u8
}

/// A string has at most one first null byte.
pub proof fn lemma_first_nul_unique(s: Seq<u8>, i: int, j: int)
    requires
        is_first_nul(s, i),
        is_first_nul(s, j),
    ensures
        i == j,
{
    if i < j {
        assert(s[i] != 0u8);
    } else if j < i {
        assert(s[j] != 0u8);
    }
}

/// The views of a vector of byte vectors.
pub open spec fn byte_views(args: Seq<Vec<u8>>) -> Seq<Seq<u8>> {
    Seq::new(args.len(), |i: int| args[i]@)
}

/// Every string of `args` is free of null bytes.
pub open spec fn args_clean(args: Seq<Seq<u8>>) -> bool {
    forall|i: int| 0 <= i < args.len() ==> !contains_nul(#[trigger] args[i])
}

/// Each string of `args`, copied and terminated by a single null byte.
pub open spec fn terminated_all(args: Seq<Seq<u8>>) -> Seq<Seq<u8>> {
    Seq::new(args.len(), |i: int| args[i].push(0u8))
}

/// A well-formed C string image: ends in a null byte and holds no other.
pub open spec fn cstring_wf(c: Seq<u8>) -> bool {
    &&& c.len() >= 1
    &&& c[c.len() - 1] == 0u8
    &&& forall|j: int| 0 <= j < c.len() - 1 ==> c[j] != 0u8
}

/// Every buffer of `a` is a well-formed C string image.
pub open spec fn argv_wf(a: Seq<Seq<u8>>) -> bool {
    forall|i: int| 0 <= i < a.len() ==> cstring_wf(#[trigger] a[i])
}

/// An independent copy of a byte string.
pub(crate) fn copy_bytes(s: &Vec<u8>) -> (r: Vec<u8>)
    ensures
        r@ == s@,
{
    let mut r: Vec<u8> = Vec::new();
    let n = s.len();
    for i in 0..n
        invariant
            n == s@.len(),
            r@ == s@.subrange(0, i as int),
    {
        r.push(s[i]);
        proof {
            assert(r@ =~= s@.subrange(0, i + 1));
        }
    }
    proof {
        assert(s@.subrange(0, n as int) =~= s@);
    }
    r
}

/// Copy `s` into a fresh buffer terminated by a single null byte, or
/// reject it if it already contains one.
fn nul_terminate(s: &Vec<u8>) -> (r: Result<Vec<u8>, NulError>)
    ensures
        r is Ok <==> !contains_nul(s@),
        r matches Ok(c) ==> c@ == s@.push(0u8),
        r matches Err(e) ==> is_first_nul(s@, e.position as int) && e.bytes@ == s@,
{
    let mut out: Vec<u8> = Vec::new();
    let n = s.len();
    for i in 0..n
        invariant
            n == s@.len(),
            out@ == s@.subrange(0, i as int),
            forall|j: int| 0 <= j < i ==> s@[j] != 0u8,
    {
        let b = s[i];
        if b == 0 {
            return Err(NulError { position: i, bytes: copy_bytes(s) });
        }
        out.push(b);
        proof {
            assert(out@ =~= s@.subrange(0, i + 1));
        }
    }
    out.push(0);
    proof {
        assert(out@ =~= s@.push(0u8));
    }
    Ok(out)
}

/// Convert the program name into its null-terminated buffer, or reject it.
pub fn to_program_cstring(program: &Vec<u8>) -> (r: Result<Vec<u8>, NulError>)
    ensures
        r is Ok <==> !contains_nul(program@),
        r matches Ok(c) ==> c@ == program@.push(0u8),
        r matches Err(e) ==> is_first_nul(program@, e.position as int) && e.bytes@ == program@,
{
    nul_terminate(program)
}

/// `k` is the position of the first string of `args` that contains a null
/// byte.
pub open spec fn is_first_bad(args: Seq<Seq<u8>>, k: int) -> bool {
    &&& 0 <= k < args.len()
    &&& contains_nul(args[k])
    &&& forall|j: int| 0 <= j < k ==> !contains_nul(#[trigger] args[j])
}

/// At most one string of `args` is the first to contain a null byte.
pub proof fn lemma_first_bad_unique(args: Seq<Seq<u8>>, k: int, l: int)
    requires
        is_first_bad(args, k),
        is_first_bad(args, l),
    ensures
        k == l,
{
    if k < l {
        assert(!contains_nul(args[k]));
    } else if l < k {
        assert(!contains_nul(args[l]));
    }
}

/// `(pos, bytes)` is the violation that rejecting `args` reports: `bytes`
/// is the first string of `args` holding a null byte, and `pos` the index
/// of its first null byte.
pub open spec fn argv_nul_error(args: Seq<Seq<u8>>, pos: int, bytes: Seq<u8>) -> bool {
    exists|k: int| is_first_bad(args, k) && bytes == args[k] && is_first_nul(args[k], pos)
}

/// The violation reported for an argument list is determined by the list.
pub proof fn lemma_argv_nul_error_unique(
    args: Seq<Seq<u8>>,
    pos1: int,
    bytes1: Seq<u8>,
    pos2: int,
    bytes2: Seq<u8>,
)
    requires
        argv_nul_error(args, pos1, bytes1),
        argv_nul_error(args, pos2, bytes2),
    ensures
        pos1 == pos2,
        bytes1 == bytes2,
{
    let k1 = choose|k: int|
        is_first_bad(args, k) && bytes1 == args[k] && is_first_nul(args[k], pos1);
    let k2 = choose|k: int|
        is_first_bad(args, k) && bytes2 == args[k] && is_first_nul(args[k], pos2);
    lemma_first_bad_unique(args, k1, k2);
    lemma_first_nul_unique(args[k1], pos1, pos2);
}

/// The owned native argument array: one null-terminated buffer per
/// argument, in input order.
///
/// The buffers are the storage a C `argv` pointer table points into; they
/// stay owned here, so they outlive any table the embedding program builds
/// over them for the duration of the call.
pub struct Argv {
    cstrings: Vec<Vec<u8>>,
}

impl View for Argv {
    type V = Seq<Seq<u8>>;

    closed spec fn view(&self) -> Seq<Seq<u8>> {
        byte_views(self.cstrings@)
    }
}

impl Argv {
    /// Borrow the buffers, e.g. to build the pointer table over them.
    pub fn cstrings(&self) -> (r: &Vec<Vec<u8>>)
        ensures
            byte_views(r@) == self@,
    {
        &self.cstrings
    }
}

/// Convert every argument into its null-terminated buffer, or reject the
/// list at the first argument containing a null byte.
pub fn to_argv(args: &Vec<Vec<u8>>) -> (r: Result<Argv, NulError>)
    ensures
        r is Ok <==> args_clean(byte_views(args@)),
        r matches Ok(a) ==> a@ == terminated_all(byte_views(args@)) && argv_wf(a@),
        r matches Err(e) ==> argv_nul_error(byte_views(args@), e.position as int, e.bytes@),
{
    let ghost views = byte_views(args@);
    let mut cstrings: Vec<Vec<u8>> = Vec::new();
    let n = args.len();
    for k in 0..n
        invariant
            n == args@.len(),
            views == byte_views(args@),
            byte_views(cstrings@) == terminated_all(views.take(k as int)),
            forall|j: int| 0 <= j < k ==> !contains_nul(#[trigger] views[j]),
    {
        match nul_terminate(&args[k]) {
            Ok(c) => {
                let ghost prev = cstrings@;
                cstrings.push(c);
                proof {
                    assert(byte_views(prev).len() == prev.len());
                    assert(terminated_all(views.take(k as int)).len() == k);
                    assert forall|i: int| 0 <= i < k implies byte_views(cstrings@)[i]
                        == terminated_all(views.take(k + 1))[i] by {
                        assert(byte_views(prev)[i] == terminated_all(views.take(k as int))[i]);
                    }
                    assert(byte_views(cstrings@) =~~= terminated_all(views.take(k + 1)));
                }
            },
            Err(e) => {
                proof {
                    assert(is_first_bad(views, k as int));
                }
                return Err(e);
            },
        }
    }
    proof {
        assert(views.take(n as int) =~= views);
    }
    let a = Argv { cstrings };
    proof {
        lemma_terminated_all_wf(views);
    }
    Ok(a)
}

/// Terminating a list of clean strings yields well-formed C string images.
proof fn lemma_terminated_all_wf(views: Seq<Seq<u8>>)
    requires
        args_clean(views),
    ensures
        argv_wf(terminated_all(views)),
{
    let a = terminated_all(views);
    assert forall|i: int| 0 <= i < a.len() implies cstring_wf(#[trigger] a[i]) by {
        assert(a[i] == views[i].push(0u8));
        assert(!contains_nul(views[i]));
        assert(a[i][a[i].len() - 1] == 0u8);
        assert forall|j: int| 0 <= j < a[i].len() - 1 implies a[i][j] != 0u8 by {
            assert(a[i][j] == views[i][j]);
        }
    }
}

/// The byte an environment entry's name and value are joined with: `=`.
pub open spec fn equals_byte() -> u8 {
    61u8
}

/// The encoding of one environment entry: `name`, `=`, `value`.
pub open spec fn env_encoding(name: Seq<u8>, value: Seq<u8>) -> Seq<u8> {
    name + seq![equals_byte()] + value
}

/// The encodings of a list of environment entries, in input order.
pub open spec fn pair_encodings(envs: Seq<(Vec<u8>, Vec<u8>)>) -> Seq<Seq<u8>> {
    Seq::new(envs.len(), |i: int| env_encoding(envs[i].0@, envs[i].1@))
}

/// An entry's encoding contains a null byte exactly when its name or its
/// value does: the joining `=` never contributes one.
pub proof fn lemma_env_encoding_nul(name: Seq<u8>, value: Seq<u8>)
    ensures
        contains_nul(env_encoding(name, value)) <==> contains_nul(name) || contains_nul(value),
{
    let e = env_encoding(name, value);
    if contains_nul(e) {
        let i = choose|i: int| 0 <= i < e.len() && e[i] == 0u8;
        if i < name.len() {
            assert(name[i] == 0u8);
        } else if i > name.len() {
            assert(value[i - name.len() - 1] == 0u8);
        }
    }
    if contains_nul(name) {
        let i = choose|i: int| 0 <= i < name.len() && name[i] == 0u8;
        assert(e[i] == 0u8);
    }
    if contains_nul(value) {
        let i = choose|i: int| 0 <= i < value.len() && value[i] == 0u8;
        assert(e[name.len() + 1 + i] == 0u8);
    }
}

/// Join an entry's name and value with `=` into one byte string.
fn encode_env_entry(name: &Vec<u8>, value: &Vec<u8>) -> (r: Vec<u8>)
    ensures
        r@ == env_encoding(name@, value@),
{
    let mut r = copy_bytes(name);
    r.push(61);
    let n = value.len();
    for i in 0..n
        invariant
            n == value@.len(),
            r@ == name@ + seq![equals_byte()] + value@.subrange(0, i as int),
    {
        r.push(value[i]);
        proof {
            assert(r@ =~= name@ + seq![equals_byte()] + value@.subrange(0, i + 1));
        }
    }
    proof {
        assert(name@ + seq![equals_byte()] + value@.subrange(0, n as int) =~= env_encoding(
            name@,
            value@,
        ));
    }
    r
}

/// The owned native environment array: one null-terminated `name=value`
/// buffer per entry, in input order.
///
/// As with [`Argv`], the buffers stay owned here so that a pointer table
/// built over them stays valid for the duration of the call.
pub struct Envp {
    cstrings: Vec<Vec<u8>>,
}

impl View for Envp {
    type V = Seq<Seq<u8>>;

    closed spec fn view(&self) -> Seq<Seq<u8>> {
        byte_views(self.cstrings@)
    }
}

impl Envp {
    /// Borrow the buffers, e.g. to build the pointer table over them.
    pub fn cstrings(&self) -> (r: &Vec<Vec<u8>>)
        ensures
            byte_views(r@) == self@,
    {
        &self.cstrings
    }
}

/// Encode every environment entry as a null-terminated `name=value`
/// buffer, or reject the list at the first entry whose encoding contains a
/// null byte.
pub fn to_envp(envs: &Vec<(Vec<u8>, Vec<u8>)>) -> (r: Result<Envp, NulError>)
    ensures
        r is Ok <==> args_clean(pair_encodings(envs@)),
        r matches Ok(e) ==> e@ == terminated_all(pair_encodings(envs@)) && argv_wf(e@),
        r matches Err(e) ==> argv_nul_error(pair_encodings(envs@), e.position as int, e.bytes@),
{
    let ghost encodings = pair_encodings(envs@);
    let mut cstrings: Vec<Vec<u8>> = Vec::new();
    let n = envs.len();
    for k in 0..n
        invariant
            n == envs@.len(),
            encodings == pair_encodings(envs@),
            byte_views(cstrings@) == terminated_all(encodings.take(k as int)),
            forall|j: int| 0 <= j < k ==> !contains_nul(#[trigger] encodings[j]),
    {
        let entry = encode_env_entry(&envs[k].0, &envs[k].1);
        match nul_terminate(&entry) {
            Ok(c) => {
                let ghost prev = cstrings@;
                cstrings.push(c);
                proof {
                    assert(byte_views(prev).len() == prev.len());
                    assert(terminated_all(encodings.take(k as int)).len() == k);
                    assert forall|i: int| 0 <= i < k implies byte_views(cstrings@)[i]
                        == terminated_all(encodings.take(k + 1))[i] by {
                        assert(byte_views(prev)[i] == terminated_all(
                            encodings.take(k as int),
                        )[i]);
                    }
                    assert(byte_views(cstrings@) =~~= terminated_all(encodings.take(k + 1)));
                }
            },
            Err(e) => {
                proof {
                    assert(is_first_bad(encodings, k as int));
                }
                return Err(e);
            },
        }
    }
    proof {
        assert(encodings.take(n as int) =~= encodings);
        lemma_terminated_all_wf(encodings);
    }
    Ok(Envp { cstrings })
}

/// The violation an `execvp`-style call reports for `(program, args)`:
/// the program name is checked first, then the arguments in order.
pub open spec fn execvp_nul_error(
    program: Seq<u8>,
    args: Seq<Seq<u8>>,
    pos: int,
    bytes: Seq<u8>,
) -> bool {
    if contains_nul(program) {
        is_first_nul(program, pos) && bytes == program
    } else {
        argv_nul_error(args, pos, bytes)
    }
}

/// The exact outcome of preparing an `execvp`-style call on `(program,
/// args)`: it succeeds exactly on null-free input, the produced buffers
/// are the null-terminated copies, and a rejection reports the first
/// violation.
pub open spec fn prepared_execvp(
    program: Seq<u8>,
    args: Seq<Seq<u8>>,
    r: Result<(Vec<u8>, Argv), Error>,
) -> bool {
    &&& (r is Ok <==> !contains_nul(program) && args_clean(args))
    &&& r matches Ok(p) ==> p.0@ == program.push(0u8) && p.1@ == terminated_all(args)
    &&& r matches Err(e) ==> e matches Error::BadArgument(ne) && execvp_nul_error(
        program,
        args,
        ne.position as int,
        ne.bytes@,
    )
}

/// The exact outcome of preparing an `execvpe`-style call: as for
/// `execvp`, with the environment encodings checked after the arguments.
pub open spec fn prepared_execvpe(
    program: Seq<u8>,
    args: Seq<Seq<u8>>,
    encodings: Seq<Seq<u8>>,
    r: Result<(Vec<u8>, Argv, Envp), Error>,
) -> bool {
    &&& (r is Ok <==> !contains_nul(program) && args_clean(args) && args_clean(encodings))
    &&& r matches Ok(p) ==> p.0@ == program.push(0u8) && p.1@ == terminated_all(args) && p.2@
        == terminated_all(encodings)
    &&& r matches Err(e) ==> e matches Error::BadArgument(ne) && {
        if contains_nul(program) || !args_clean(args) {
            execvp_nul_error(program, args, ne.position as int, ne.bytes@)
        } else {
            argv_nul_error(encodings, ne.position as int, ne.bytes@)
        }
    }
}

/// Marshal `program` and `args` for an `execvp` call: the null-terminated
/// program name and the owned argument array, or the first violation.
///
/// The embedding program builds the C pointer table over the returned
/// buffers and makes the system call while they are still owned and
/// unchanged.
pub fn prepare_execvp(program: &Vec<u8>, args: &Vec<Vec<u8>>) -> (r: Result<(Vec<u8>, Argv), Error>)
    ensures
        prepared_execvp(program@, byte_views(args@), r),
{
    let program_cstring = match to_program_cstring(program) {
        Ok(c) => c,
        Err(e) => return Err(Error::BadArgument(e)),
    };
    let argv = match to_argv(args) {
        Ok(a) => a,
        Err(e) => return Err(Error::BadArgument(e)),
    };
    Ok((program_cstring, argv))
}

/// Marshal `program`, `args` and the environment entries for an `execvpe`
/// call, or report the first violation: program name first, then the
/// arguments, then the `name=value` encodings.
pub fn prepare_execvpe(
    program: &Vec<u8>,
    args: &Vec<Vec<u8>>,
    envs: &Vec<(Vec<u8>, Vec<u8>)>,
) -> (r: Result<(Vec<u8>, Argv, Envp), Error>)
    ensures
        prepared_execvpe(program@, byte_views(args@), pair_encodings(envs@), r),
{
    let program_cstring = match to_program_cstring(program) {
        Ok(c) => c,
        Err(e) => return Err(Error::BadArgument(e)),
    };
    let argv = match to_argv(args) {
        Ok(a) => a,
        Err(e) => return Err(Error::BadArgument(e)),
    };
    let envp = match to_envp(envs) {
        Ok(e) => e,
        Err(e) => return Err(Error::BadArgument(e)),
    };
    Ok((program_cstring, argv, envp))
}

/// Failure is a function of the input alone: any two outcomes the
/// `execvp` contract admits for the same input agree, in particular a
/// rejected input is rejected with the same violation every time.
pub proof fn lemma_failure_idempotent(
    program: Seq<u8>,
    args: Seq<Seq<u8>>,
    r1: Result<(Vec<u8>, Argv), Error>,
    r2: Result<(Vec<u8>, Argv), Error>,
)
    requires
        prepared_execvp(program, args, r1),
        prepared_execvp(program, args, r2),
    ensures
        r1 is Ok <==> r2 is Ok,
        r1 is Ok && r2 is Ok ==> r1->Ok_0.0@ == r2->Ok_0.0@ && r1->Ok_0.1@ == r2->Ok_0.1@,
        r1 is Err ==> r1->Err_0 matches Error::BadArgument(_),
        r1 is Err && r2 is Err ==> r1->Err_0->BadArgument_0.position
            == r2->Err_0->BadArgument_0.position && r1->Err_0->BadArgument_0.bytes@
            == r2->Err_0->BadArgument_0.bytes@,
{
    if r1 is Err && r2 is Err {
        let e1 = r1->Err_0->BadArgument_0;
        let e2 = r2->Err_0->BadArgument_0;
        if contains_nul(program) {
            lemma_first_nul_unique(program, e1.position as int, e2.position as int);
        } else {
            lemma_argv_nul_error_unique(
                args,
                e1.position as int,
                e1.bytes@,
                e2.position as int,
                e2.bytes@,
            );
        }
    }
}

} // verus!
