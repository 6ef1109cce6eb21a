use vstd::prelude::*;
use vstd::utf8::{decode_utf8, valid_utf8};

verus! {

/// What went wrong in an I/O operation, as far as this library tells apart.
#[derive(Clone, Copy, Debug, PartialEq, Eq, Structural)]
pub enum IoErrorKind {
    AlreadyExists,
    NotFound,
    Other,
}

/// An I/O error: its kind, the OS code where there was one, and a message.
#[derive(Debug)]
pub struct IoError {
    pub kind: IoErrorKind,
    pub raw_os_error: Option<i32>,
    pub message: String,
}

/// The character of a decimal digit.
pub open spec fn digit_char(d: nat) -> char {
    if d == 0 { '0' } else if d == 1 { '1' } else if d == 2 { '2' } else if d == 3 { '3' }
    else if d == 4 { '4' } else if d == 5 { '5' } else if d == 6 { '6' } else if d == 7 { '7' }
    else if d == 8 { '8' } else { '9' }
}

/// `n` written in decimal, without leading zeros.
pub open spec fn decimal(n: nat) -> Seq<char>
    decreases n,
{
    if n < 10 {
        seq![digit_char(n)]
    } else {
        decimal(n / 10).push(digit_char(n % 10))
    }
}

/// The one-character text of the decimal digit `d`.
fn digit_text(d: usize) -> (r: &'static str)
    requires
        d < 10,
    ensures
        r@ == seq![digit_char(d as nat)],
{
    proof {
        reveal_strlit("0");
        reveal_strlit("1");
        reveal_strlit("2");
        reveal_strlit("3");
        reveal_strlit("4");
        reveal_strlit("5");
        reveal_strlit("6");
        reveal_strlit("7");
        reveal_strlit("8");
        reveal_strlit("9");
    }
    let r = if d == 0 { "0" } else if d == 1 { "1" } else if d == 2 { "2" } else if d == 3 { "3" }
    else if d == 4 { "4" } else if d == 5 { "5" } else if d == 6 { "6" } else if d == 7 { "7" }
    else if d == 8 { "8" } else { "9" };
    assert(r@ =~= seq![digit_char(d as nat)]);
    r
}

/// Appends `n` in decimal to `s`.
fn push_decimal(s: &mut String, n: usize)
    ensures
        final(s)@ == old(s)@ + decimal(n as nat),
    decreases n,
{
    if n >= 10 {
        push_decimal(s, n / 10);
    }
    s.append(digit_text(n % 10));
    assert(s@ =~= old(s)@ + decimal(n as nat));
}

/// Relies on `std::str::from_utf8`: the text that `b` encodes, and `None`
/// exactly when `b` is not valid UTF-8.
#[verifier::external_body]
fn utf8_text(b: &[u8]) -> (r: Option<&str>)
    ensures
        r is Some <==> valid_utf8(b@),
        r is Some ==> r->Some_0@ == decode_utf8(b@),
{
    std::str::from_utf8(b).ok()
}

/// The path separator, `/`.
pub const SEPARATOR: u8 = 47;

/// Appends the bytes of `s` to `v`.
fn append_bytes(v: &mut Vec<u8>, s: &[u8])
    requires
        old(v)@.len() + s@.len() <= usize::MAX,
    ensures
        final(v)@ == old(v)@ + s@,
{
    let ghost start = v@;
    let mut i: usize = 0;
    while i < s.len()
        invariant
            i <= s@.len(),
            start == old(v)@,
            start.len() + s@.len() <= usize::MAX,
            v@ == start + s@.take(i as int),
        decreases s.len() - i,
    {
        v.push(s[i]);
        i += 1;
        assert(v@ =~= start + s@.take(i as int));
    }
    assert(s@.take(s@.len() as int) =~= s@);
}

/// `parent` joined with the relative component `name`, as `Path::join`
/// does on Unix: a separator goes between them unless `parent` is empty or
/// already ends in one.
pub open spec fn join_spec(parent: Seq<u8>, name: Seq<u8>) -> Seq<u8> {
    if parent.len() == 0 || parent.last() == SEPARATOR {
        parent + name
    } else {
        parent + seq![SEPARATOR] + name
    }
}

/// Joins the relative component `name` onto `parent`.
pub fn join_path(parent: &[u8], name: &[u8]) -> (r: Vec<u8>)
    requires
        parent@.len() + name@.len() < usize::MAX,
    ensures
        r@ == join_spec(parent@, name@),
{
    let mut r: Vec<u8> = Vec::new();
    append_bytes(&mut r, parent);
    let n = parent.len();
    if n > 0 && parent[n - 1] != SEPARATOR {
        r.push(SEPARATOR);
    }
    append_bytes(&mut r, name);
    r
}

/// The prefix of every candidate name, `.tmp`: a leading dot hides it from
/// plain listings.
pub open spec fn name_prefix() -> Seq<u8> {
    seq![46u8, 116u8, 109u8, 112u8]
}

/// The candidate path for one attempt: the prefix and the random fragment,
/// inside `parent`.
pub open spec fn candidate_spec(parent: Seq<u8>, fragment: Seq<u8>) -> Seq<u8> {
    join_spec(parent, name_prefix() + fragment)
}

/// Builds the candidate path for the random fragment `fragment`.
pub fn candidate_path(parent: &[u8], fragment: &[u8]) -> (r: Vec<u8>)
    requires
        parent@.len() + fragment@.len() + 4 < usize::MAX,
    ensures
        r@ == candidate_spec(parent@, fragment@),
{
    let mut name: Vec<u8> = vec![46u8, 116u8, 109u8, 112u8];
    assert(name@ =~= name_prefix());
    append_bytes(&mut name, fragment);
    join_path(parent, name.as_slice())
}

/// The message of the error that ends a loop after `attempts` collisions in
/// `parent`; it names `parent` where the path is text.
pub open spec fn exhausted_message(attempts: nat, parent: Seq<u8>) -> Seq<char> {
    let head = seq!['T', 'o', 'o', ' ', 'm', 'a', 'n', 'y', ' ', '('] + decimal(attempts)
        + ") temporary creation attempts"@;
    if valid_utf8(parent) {
        head + " within "@ + decode_utf8(parent)
    } else {
        head
    }
}

/// The error that ends a loop after `attempts` collisions in `parent`: kind
/// `AlreadyExists`, no OS code, and the message above.
pub open spec fn is_exhausted<R>(r: Result<R, IoError>, attempts: nat, parent: Seq<u8>) -> bool {
    &&& r is Err
    &&& r->Err_0.kind == IoErrorKind::AlreadyExists
    &&& r->Err_0.raw_os_error is None
    &&& r->Err_0.message@ == exhausted_message(attempts, parent)
}

/// Builds the error that ends a loop after `attempts` collisions in `parent`.
pub fn exhausted_error(attempts: usize, parent: &[u8]) -> (r: IoError)
    ensures
        r.kind == IoErrorKind::AlreadyExists,
        r.raw_os_error is None,
        r.message@ == exhausted_message(attempts as nat, parent@),
{
    let mut message = String::from_str("Too many (");
    push_decimal(&mut message, attempts);
    message.append(") temporary creation attempts");
    proof {
        reveal_strlit("Too many (");
        reveal_strlit(") temporary creation attempts");
        reveal_strlit(" within ");
    }
    match utf8_text(parent) {
        Some(text) => {
            message.append(" within ");
            message.append(text);
        },
        None => {},
    }
    assert(message@ =~= exhausted_message(attempts as nat, parent@));
    IoError { kind: IoErrorKind::AlreadyExists, raw_os_error: None, message }
}

/// An outcome that the loop retries: the name was taken.
pub open spec fn is_collision<R>(o: Result<R, IoError>) -> bool {
    o is Err && o->Err_0.kind == IoErrorKind::AlreadyExists
}

/// Tells whether `o` is a collision.
pub fn collided<R>(o: &Result<R, IoError>) -> (b: bool)
    ensures
        b == is_collision(*o),
{
    match o {
        Ok(_) => false,
        Err(e) => e.kind == IoErrorKind::AlreadyExists,
    }
}

/// One attempt of the loop: the fragment drawn, the candidate path built
/// from it, and what the creation strategy returned there.
pub type Attempt<R> = (Vec<u8>, Vec<u8>, Result<R, IoError>);

/// Attempt `i` of `trace` (counting from 0) drew its fragment from
/// `get_random(i)`, built its candidate path in `parent` from it, and handed
/// that path to `creator(i, path)`. As the attempt number is an argument of
/// both calls, each recorded attempt stands for calls that were made.
pub open spec fn attempts_follow<R, G, F>(
    parent: Seq<u8>,
    get_random: G,
    creator: F,
    trace: Seq<Attempt<R>>,
) -> bool where G: Fn(usize) -> Vec<u8>, F: Fn(usize, Vec<u8>) -> Result<R, IoError> {
    forall|i: int|
        0 <= i < trace.len() ==> {
            &&& get_random.ensures((i as usize,), #[trigger] trace[i].0)
            &&& trace[i].1@ == candidate_spec(parent, trace[i].0@)
            &&& creator.ensures((i as usize, trace[i].1), trace[i].2)
        }
}

/// How a loop with `budget` attempts ends, given the attempts it made: all
/// but the last collided, and either the last did not, and its outcome is
/// the result, or the budget ran out on collisions.
pub open spec fn run_ends<R>(
    parent: Seq<u8>,
    budget: nat,
    trace: Seq<Attempt<R>>,
    r: Result<R, IoError>,
) -> bool {
    &&& trace.len() <= budget
    &&& forall|i: int| 0 <= i < trace.len() - 1 ==> is_collision(#[trigger] trace[i].2)
    &&& if trace.len() > 0 && !is_collision(trace.last().2) {
        r == trace.last().2
    } else {
        trace.len() == budget && is_exhausted(r, budget, parent)
    }
}

/// A run of the creation loop that made the attempts of `trace` and ended
/// with `r`.
pub open spec fn creation_run<R, G, F>(
    parent: Seq<u8>,
    budget: nat,
    get_random: G,
    creator: F,
    trace: Seq<Attempt<R>>,
    r: Result<R, IoError>,
) -> bool where G: Fn(usize) -> Vec<u8>, F: Fn(usize, Vec<u8>) -> Result<R, IoError> {
    attempts_follow(parent, get_random, creator, trace) && run_ends(parent, budget, trace, r)
}

/// A bound on the length of a path or fragment that the loop takes: a
/// quarter of the address space, which no allocation reaches.
pub const MAX_PATH_LEN: usize = usize::MAX / 4;

/// Tries `creator` on fresh candidate paths in `parent`, at most
/// `creation_attempts` times. A collision (`AlreadyExists`) is retried under
/// a new fragment from `get_random`; any other outcome is returned at once.
/// When every attempt collided, the result is the exhaustion error. Both
/// closures receive the attempt number, counting from 0.
pub fn create_helper<R, G, F>(
    parent: &[u8],
    creation_attempts: usize,
    get_random: G,
    creator: F,
) -> (r: Result<R, IoError>) where G: Fn(usize) -> Vec<u8>, F: Fn(usize, Vec<u8>) -> Result<R, IoError>
    requires
        parent@.len() <= MAX_PATH_LEN,
        forall|i: usize| get_random.requires((i,)),
        forall|i: usize, p: Vec<u8>| creator.requires((i, p)),
        forall|i: usize, f: Vec<u8>| #[trigger] get_random.ensures((i,), f) ==> f@.len() <= MAX_PATH_LEN,
    ensures
        exists|trace: Seq<Attempt<R>>|
            #[trigger] creation_run(parent@, creation_attempts as nat, get_random, creator, trace, r),
{
    let mut i: usize = 0;
    let ghost mut trace: Seq<Attempt<R>> = Seq::empty();
    while i < creation_attempts
        invariant
            i <= creation_attempts,
            trace.len() == i,
            parent@.len() <= MAX_PATH_LEN,
            forall|i: usize| get_random.requires((i,)),
            forall|i: usize, p: Vec<u8>| creator.requires((i, p)),
            forall|i: usize, f: Vec<u8>| #[trigger] get_random.ensures((i,), f) ==> f@.len() <= MAX_PATH_LEN,
            attempts_follow(parent@, get_random, creator, trace),
            forall|k: int| 0 <= k < trace.len() ==> is_collision(#[trigger] trace[k].2),
        decreases creation_attempts - i,
    {
        let attempt = i;
        i += 1;
        let fragment = get_random(attempt);
        let path = candidate_path(parent, fragment.as_slice());
        let ghost tried = path;
        let out = creator(attempt, path);
        proof {
            trace = trace.push((fragment, tried, out));
        }
        if !collided(&out) {
            assert(creation_run(parent@, creation_attempts as nat, get_random, creator, trace, out));
            return out;
        }
    }
    let r = Err(exhausted_error(i, parent));
    assert(creation_run(parent@, creation_attempts as nat, get_random, creator, trace, r));
    r
}

/// A strategy that always reports `AlreadyExists` is tried exactly `budget`
/// times, and the loop then fails with the exhaustion error, whose message
/// holds the number of attempts in decimal and, where it is text, the
/// parent directory.
pub proof fn lemma_all_collisions_exhaust<R, G, F>(
    parent: Seq<u8>,
    budget: nat,
    get_random: G,
    creator: F,
    trace: Seq<Attempt<R>>,
    r: Result<R, IoError>,
) where G: Fn(usize) -> Vec<u8>, F: Fn(usize, Vec<u8>) -> Result<R, IoError>
    requires
        creation_run(parent, budget, get_random, creator, trace, r),
        forall|i: usize, p: Vec<u8>, o: Result<R, IoError>| #[trigger] creator.ensures((i, p), o) ==> is_collision(o),
    ensures
        trace.len() == budget,
        is_exhausted(r, budget, parent),
        r->Err_0.message@.subrange(10, 10 + decimal(budget).len() as int) == decimal(budget),
        valid_utf8(parent) ==> r->Err_0.message@.subrange(
            r->Err_0.message@.len() - decode_utf8(parent).len(),
            r->Err_0.message@.len() as int,
        ) == decode_utf8(parent),
{
    if trace.len() > 0 {
        let last = trace.len() - 1;
        assert(get_random.ensures((last as usize,), trace[last].0));
        assert(creator.ensures((last as usize, trace[last].1), trace[last].2));
    }
    let m = r->Err_0.message@;
    assert(m.subrange(10, 10 + decimal(budget).len() as int) =~= decimal(budget));
    if valid_utf8(parent) {
        let t = decode_utf8(parent);
        assert(m.subrange(m.len() - t.len(), m.len() as int) =~= t);
    }
}

/// When the strategy's answers are `plan`, whose last entry is its first
/// that is not a collision, and `plan` fits in the budget, the loop draws
/// exactly `plan.len()` fragments and returns the last answer.
pub proof fn lemma_success_on_attempt<R, G, F>(
    parent: Seq<u8>,
    budget: nat,
    get_random: G,
    creator: F,
    trace: Seq<Attempt<R>>,
    r: Result<R, IoError>,
    plan: Seq<Result<R, IoError>>,
) where G: Fn(usize) -> Vec<u8>, F: Fn(usize, Vec<u8>) -> Result<R, IoError>
    requires
        creation_run(parent, budget, get_random, creator, trace, r),
        0 < plan.len() <= budget,
        forall|i: int| 0 <= i < plan.len() - 1 ==> is_collision(#[trigger] plan[i]),
        !is_collision(plan.last()),
        forall|i: int| 0 <= i < trace.len() && i < plan.len() ==> #[trigger] trace[i].2 == plan[i],
    ensures
        trace.len() == plan.len(),
        r == plan.last(),
{
    let k = plan.len() as int;
    if trace.len() < k {
        if trace.len() > 0 {
            assert(trace[trace.len() - 1].2 == plan[trace.len() - 1]);
        }
    } else if trace.len() > k {
        assert(trace[k - 1].2 == plan[k - 1]);
    }
    assert(trace[k - 1].2 == plan[k - 1]);
}


/// With a random source that always gives `fragment`, and a strategy that
/// collides exactly on the paths in `taken`: when the candidate path is free
/// and the budget is at least one, one attempt is made there and its outcome
/// is the result; when it is taken, every attempt of the budget is made there
/// and the loop fails with the exhaustion error.
pub proof fn lemma_fixed_fragment<R, G, F>(
    parent: Seq<u8>,
    budget: nat,
    get_random: G,
    creator: F,
    trace: Seq<Attempt<R>>,
    r: Result<R, IoError>,
    fragment: Seq<u8>,
    taken: Set<Seq<u8>>,
) where G: Fn(usize) -> Vec<u8>, F: Fn(usize, Vec<u8>) -> Result<R, IoError>
    requires
        creation_run(parent, budget, get_random, creator, trace, r),
        forall|i: usize, f: Vec<u8>| #[trigger] get_random.ensures((i,), f) ==> f@ == fragment,
        forall|i: usize, p: Vec<u8>, o: Result<R, IoError>| #[trigger] creator.ensures((i, p), o) ==> (
            is_collision(o) <==> taken.contains(p@)),
    ensures
        !taken.contains(candidate_spec(parent, fragment)) && budget >= 1 ==> {
            &&& trace.len() == 1
            &&& trace[0].1@ == candidate_spec(parent, fragment)
            &&& creator.ensures((0usize, trace[0].1), r)
        },
        taken.contains(candidate_spec(parent, fragment)) ==> {
            &&& trace.len() == budget
            &&& forall|i: int| 0 <= i < trace.len() ==> #[trigger] trace[i].1@ == candidate_spec(parent, fragment)
            &&& is_exhausted(r, budget, parent)
        },
{
    assert forall|i: int| 0 <= i < trace.len() implies {
        &&& #[trigger] trace[i].1@ == candidate_spec(parent, fragment)
        &&& (is_collision(trace[i].2) <==> taken.contains(candidate_spec(parent, fragment)))
    } by {
        assert(get_random.ensures((i as usize,), trace[i].0));
        assert(creator.ensures((i as usize, trace[i].1), trace[i].2));
    }
    if trace.len() > 0 {
        assert(trace[trace.len() - 1].1@ == candidate_spec(parent, fragment));
    }
    if !taken.contains(candidate_spec(parent, fragment)) && budget >= 1 {
        if trace.len() > 1 {
            assert(is_collision(trace[0].2));
        }
        assert(trace.len() != 0);
        assert(get_random.ensures((0usize,), trace[0].0));
        assert(trace[0].1@ == candidate_spec(parent, fragment));
        assert(creator.ensures((0usize, trace[0].1), trace[0].2));
    }
}

/// Whether `path` is absolute: on Unix, whether it starts at the root.
pub open spec fn is_absolute_spec(path: Seq<u8>) -> bool {
    path.len() > 0 && path[0] == SEPARATOR
}

/// Tells whether `path` is absolute.
pub fn is_absolute(path: &[u8]) -> (r: bool)
    ensures
        r == is_absolute_spec(path@),
{
    path.len() > 0 && path[0] == SEPARATOR
}

/// `path` resolved against the working directory `cwd`: unchanged when
/// absolute, else joined onto `cwd`.
pub open spec fn absolute_spec(cwd: Seq<u8>, path: Seq<u8>) -> Seq<u8> {
    if is_absolute_spec(path) {
        path
    } else {
        join_spec(cwd, path)
    }
}

/// Resolves `path` against the working directory `cwd`, once. `cwd` is not
/// read when `path` is absolute.
pub fn absolute_path(cwd: &[u8], path: &[u8]) -> (r: Vec<u8>)
    requires
        cwd@.len() + path@.len() < usize::MAX,
    ensures
        r@ == absolute_spec(cwd@, path@),
{
    if is_absolute(path) {
        let mut r: Vec<u8> = Vec::new();
        append_bytes(&mut r, path);
        r
    } else {
        join_path(cwd, path)
    }
}

/// Whether a failed anonymous-file open with OS code `raw_os_error` calls
/// for the create-then-unlink fallback: its code is one of `unsupported`,
/// the codes with which the platform says that the file system or path does
/// not support such an open (`EOPNOTSUPP`, `EISDIR` and `ENOENT` on Linux).
pub open spec fn needs_fallback(raw_os_error: Option<i32>, unsupported: Seq<i32>) -> bool {
    raw_os_error is Some && unsupported.contains(raw_os_error->Some_0)
}

/// Tells whether a failed anonymous-file open, with OS code `raw_os_error`,
/// calls for the create-then-unlink fallback rather than failing.
pub fn tmpfile_needs_fallback(raw_os_error: Option<i32>, unsupported: &[i32]) -> (r: bool)
    ensures
        r == needs_fallback(raw_os_error, unsupported@),
{
    match raw_os_error {
        Some(code) => {
            let mut i: usize = 0;
            while i < unsupported.len()
                invariant
                    i <= unsupported@.len(),
                    raw_os_error == Some(code),
                    forall|k: int| 0 <= k < i ==> unsupported@[k] != code,
                decreases unsupported.len() - i,
            {
                if unsupported[i] == code {
                    assert(unsupported@[i as int] == code);
                    return true;
                }
                i += 1;
            }
            false
        },
        None => false,
    }
}

/// The attempt budget of the create-then-unlink fallback, 2^31: far more
/// than any random name space makes needed, yet a bound.
pub const NUM_RETRIES: usize = 2147483648;

/// Finishes an anonymous-file request in `dir`, given `native`, the outcome
/// of the native anonymous open there, and `unsupported`, the OS codes that
/// mean lack of support. A success is kept, and so is a failure with any
/// other code. On lack of support, the
/// creation loop runs with `creator` (create, then unlink) and a budget of
/// `NUM_RETRIES`.
pub fn tempfile_or_fallback<H, G, F>(
    dir: &[u8],
    native: Result<H, IoError>,
    unsupported: &[i32],
    get_random: G,
    creator: F,
) -> (r: Result<H, IoError>) where G: Fn(usize) -> Vec<u8>, F: Fn(usize, Vec<u8>) -> Result<H, IoError>
    requires
        dir@.len() <= MAX_PATH_LEN,
        forall|i: usize| get_random.requires((i,)),
        forall|i: usize, p: Vec<u8>| creator.requires((i, p)),
        forall|i: usize, f: Vec<u8>| #[trigger] get_random.ensures((i,), f) ==> f@.len() <= MAX_PATH_LEN,
    ensures
        native is Ok ==> r == native,
        native is Err && !needs_fallback(native->Err_0.raw_os_error, unsupported@) ==> r == native,
        native is Err && needs_fallback(native->Err_0.raw_os_error, unsupported@) ==> exists|trace: Seq<Attempt<H>>|
            #[trigger] creation_run(dir@, NUM_RETRIES as nat, get_random, creator, trace, r),
{
    match native {
        Ok(h) => Ok(h),
        Err(e) => {
            if tmpfile_needs_fallback(e.raw_os_error, unsupported) {
                create_helper(dir, NUM_RETRIES, get_random, creator)
            } else {
                Err(e)
            }
        },
    }
}

/// The path of a file that this library created, and whose owner removes it
/// when done with it.
#[derive(Debug)]
pub struct TempPath {
    path: Vec<u8>,
}

impl View for TempPath {
    type V = Seq<u8>;

    closed spec fn view(&self) -> Seq<u8> {
        self.path@
    }
}

impl TempPath {
    /// Takes ownership of `path`.
    pub fn new(path: Vec<u8>) -> (r: TempPath)
        ensures
            r@ == path@,
    {
        TempPath { path }
    }

    /// The path.
    pub fn as_bytes(&self) -> (r: &[u8])
        ensures
            r@ == self@,
    {
        self.path.as_slice()
    }
}

} // verus!
