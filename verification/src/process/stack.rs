//! The initial stack of a user process: its argument and environment
//! strings, and below them `argc`, `argv`, `envp` and the auxiliary vector,
//! aligned to 16 bytes.
use vstd::prelude::*;
use crate::process::AuxVector;

verus! {

/// The bytes of a string (UTF-8).
pub open spec fn utf8(s: String) -> Seq<u8> {
    vstd::utf8::encode_utf8(s@)
}

/// Room the first `k` strings take with their NULs.
pub open spec fn strings_size(ss: Seq<String>, k: int) -> int
    decreases k,
{
    if k <= 0 { 0 } else { strings_size(ss, k - 1) + utf8(ss[k - 1]).len() + 1 }
}

proof fn lemma_strings_size_mono(ss: Seq<String>, j: int, k: int)
    requires
        0 <= j <= k,
    ensures
        strings_size(ss, j) <= strings_size(ss, k),
    decreases k - j,
{
    if j < k {
        lemma_strings_size_mono(ss, j, k - 1);
    }
}

/// Where environment string `k` goes: the strings are laid out downwards
/// from the top of the stack, environment first.
pub open spec fn env_addr(top: u64, envs: Seq<String>, k: int) -> int {
    top - strings_size(envs, k + 1)
}

/// Where argument string `k` goes: below the environment strings.
pub open spec fn arg_addr(top: u64, envs: Seq<String>, args: Seq<String>, k: int) -> int {
    top - strings_size(envs, envs.len() as int) - strings_size(args, k + 1)
}

/// Room the strings take.
pub open spec fn strings_area(envs: Seq<String>, args: Seq<String>) -> int {
    strings_size(envs, envs.len() as int) + strings_size(args, args.len() as int)
}

/// Room the pointer block takes before alignment: the auxiliary vector, the
/// two pointer arrays, `argc` and the two terminating NULs.
pub open spec fn pointers_area(n_args: int, n_envs: int, n_aux: int) -> int {
    16 * n_aux + 8 * n_envs + 8 * n_args + 24
}

/// The stack pointer before alignment.
pub open spec fn unaligned_rsp(top: u64, envs: Seq<String>, args: Seq<String>, n_aux: int) -> int {
    top - strings_area(envs, args) - pointers_area(args.len() as int, envs.len() as int, n_aux)
}

/// The words of the pointer block: `argc`, the argument pointers, NUL, the
/// environment pointers, NUL, and the auxiliary entries as type, value.
pub open spec fn stack_words(top: u64, envs: Seq<String>, args: Seq<String>, auxvs: Seq<AuxVector>) -> Seq<u64> {
    seq![args.len() as u64]
        + Seq::new(args.len(), |k: int| arg_addr(top, envs, args, k) as u64)
        + seq![0u64]
        + Seq::new(envs.len(), |k: int| env_addr(top, envs, k) as u64)
        + seq![0u64]
        + Seq::new(2 * auxvs.len(), |k: int| if k % 2 == 0 { auxvs[k / 2].auxv_type } else { auxvs[k / 2].value })
}

/// The eight bytes of a word, lowest first (the machine's order).
pub open spec fn word_bytes(w: u64) -> Seq<u8> {
    seq![w as u8, (w >> 8u64) as u8, (w >> 16u64) as u8, (w >> 24u64) as u8,
         (w >> 32u64) as u8, (w >> 40u64) as u8, (w >> 48u64) as u8, (w >> 56u64) as u8]
}

pub open spec fn words_bytes(ws: Seq<u64>) -> Seq<u8>
    decreases ws.len(),
{
    if ws.len() == 0 { Seq::empty() } else { words_bytes(ws.drop_last()) + word_bytes(ws.last()) }
}

/// What to put on a new stack: each string with its NUL at its address
/// (environment then arguments), the final stack pointer, and the bytes to
/// place there.
pub struct StackPlan {
    pub strings: Vec<(u64, Vec<u8>)>,
    pub rsp: u64,
    pub image: Vec<u8>,
}

/// What the plan for a new stack under `top` is: each environment string
/// then each argument string with its NUL at its address, the stack pointer
/// aligned down to 16 bytes below the pointer block, and the pointer block's
/// bytes followed by the alignment padding.
pub open spec fn plan_matches(top: u64, args: Seq<String>, envs: Seq<String>, auxvs: Seq<AuxVector>, r: StackPlan) -> bool {
    let u = unaligned_rsp(top, envs, args, auxvs.len() as int);
    &&& r.strings@.len() == envs.len() + args.len()
    &&& forall|k: int| 0 <= k < envs.len() ==> (#[trigger] r.strings@[k]).0 == env_addr(top, envs, k)
            && r.strings@[k].1@ == utf8(envs[k]).push(0u8)
    &&& forall|k: int| 0 <= k < args.len() ==> (#[trigger] r.strings@[envs.len() + k]).0 == arg_addr(top, envs, args, k)
            && r.strings@[envs.len() + k].1@ == utf8(args[k]).push(0u8)
    &&& r.rsp == u - u % 16
    &&& r.image@ == words_bytes(stack_words(top, envs, args, auxvs)) + Seq::new((u % 16) as nat, |i: int| 0u8)
}

/// Whether a string can be passed as a C string: no NUL inside.
pub open spec fn c_string_ok(s: String) -> bool {
    !utf8(s).contains(0u8)
}

fn push_word(buf: &mut Vec<u8>, w: u64)
    ensures
        final(buf)@ == old(buf)@ + word_bytes(w),
{
    buf.push(w as u8);
    buf.push((w >> 8u64) as u8);
    buf.push((w >> 16u64) as u8);
    buf.push((w >> 24u64) as u8);
    buf.push((w >> 32u64) as u8);
    buf.push((w >> 40u64) as u8);
    buf.push((w >> 48u64) as u8);
    buf.push((w >> 56u64) as u8);
    assert(buf@ =~= old(buf)@ + word_bytes(w));
}

/// The bytes of a list of words, one after another.
fn encode_words(ws: &Vec<u64>) -> (r: Vec<u8>)
    ensures
        r@ == words_bytes(ws@),
{
    let mut buf: Vec<u8> = Vec::new();
    let mut i: usize = 0;
    while i < ws.len()
        invariant
            i <= ws@.len(),
            buf@ == words_bytes(ws@.take(i as int)),
        decreases ws@.len() - i,
    {
        assert(ws@.take(i + 1).drop_last() =~= ws@.take(i as int));
        push_word(&mut buf, ws[i]);
        i = i + 1;
    }
    assert(ws@.take(i as int) =~= ws@);
    buf
}

/// A string's bytes followed by its NUL.
fn c_string_bytes(s: &String) -> (r: Vec<u8>)
    ensures
        r@ == utf8(*s).push(0u8),
{
    let b = s.as_str().as_bytes();
    let mut v: Vec<u8> = Vec::new();
    let mut i: usize = 0;
    while i < b.len()
        invariant
            b@ == utf8(*s),
            i <= b@.len(),
            v@ == b@.take(i as int),
        decreases b@.len() - i,
    {
        v.push(b[i]);
        assert(b@.take(i + 1) =~= b@.take(i as int).push(b@[i as int]));
        i = i + 1;
    }
    assert(b@.take(i as int) =~= b@);
    v.push(0u8);
    v
}

fn total_size(ss: &Vec<String>, bound: u64) -> (r: u64)
    requires
        strings_size(ss@, ss@.len() as int) <= bound,
    ensures
        r == strings_size(ss@, ss@.len() as int),
{
    let mut t: u64 = 0;
    let mut i: usize = 0;
    while i < ss.len()
        invariant
            i <= ss@.len(),
            t == strings_size(ss@, i as int),
            strings_size(ss@, ss@.len() as int) <= bound,
        decreases ss@.len() - i,
    {
        proof { lemma_strings_size_mono(ss@, i + 1, ss@.len() as int); }
        let n = ss[i].as_str().as_bytes().len();
        assert(n == utf8(ss@[i as int]).len());
        t = t + (n as u64) + 1;
        i = i + 1;
    }
    t
}

/// Lay out a new stack under `top` for a process with arguments `args`,
/// environment `envvars` and auxiliary vector `auxvs`.
pub fn plan_stack(top: u64, args: &Vec<String>, envvars: &Vec<String>, auxvs: &Vec<AuxVector>) -> (r: StackPlan)
    requires
        strings_area(envvars@, args@) + pointers_area(args@.len() as int, envvars@.len() as int, auxvs@.len() as int) <= top,
        forall|k: int| 0 <= k < args@.len() ==> c_string_ok(#[trigger] args@[k]),
        forall|k: int| 0 <= k < envvars@.len() ==> c_string_ok(#[trigger] envvars@[k]),
    ensures
        plan_matches(top, args@, envvars@, auxvs@, r),
{
    let ghost envs = envvars@;
    let ghost argv = args@;
    proof {
        lemma_strings_size_mono(envs, 0, envs.len() as int);
        lemma_strings_size_mono(argv, 0, argv.len() as int);
    }
    let env_size = total_size(envvars, top);
    let arg_size = total_size(args, top);
    let rsp0 = top - (env_size + arg_size);
    let mut current: u64 = env_size + arg_size;
    let mut strings: Vec<(u64, Vec<u8>)> = Vec::new();
    let mut envp: Vec<u64> = Vec::new();
    let mut i: usize = 0;
    while i < envvars.len()
        invariant
            envs == envvars@,
            argv == args@,
            i <= envs.len(),
            env_size == strings_size(envs, envs.len() as int),
            arg_size == strings_size(argv, argv.len() as int),
            rsp0 == top - (env_size + arg_size),
            env_size + arg_size <= top,
            current == env_size + arg_size - strings_size(envs, i as int),
            strings@.len() == i,
            envp@.len() == i,
            forall|k: int| 0 <= k < i ==> (#[trigger] strings@[k]).0 == env_addr(top, envs, k)
                && strings@[k].1@ == utf8(envs[k]).push(0u8),
            forall|k: int| 0 <= k < i ==> (#[trigger] envp@[k]) == env_addr(top, envs, k),
        decreases envs.len() - i,
    {
        proof {
            lemma_strings_size_mono(envs, i + 1, envs.len() as int);
            lemma_strings_size_mono(envs, 0, i + 1);
        }
        let bytes = c_string_bytes(&envvars[i]);
        let len = bytes.len() as u64;
        assert(len == utf8(envs[i as int]).len() + 1);
        assert(strings_size(envs, i + 1) == strings_size(envs, i as int) + len);
        current = current - len;
        assert(current == env_size + arg_size - strings_size(envs, i + 1));
        assert(strings_size(envs, i + 1) <= env_size);
        assert(rsp0 + current == top - strings_size(envs, i + 1));
        let addr = rsp0 + current;
        strings.push((addr, bytes));
        envp.push(addr);
        i = i + 1;
    }
    let mut argp: Vec<u64> = Vec::new();
    let mut j: usize = 0;
    while j < args.len()
        invariant
            envs == envvars@,
            argv == args@,
            j <= argv.len(),
            env_size == strings_size(envs, envs.len() as int),
            arg_size == strings_size(argv, argv.len() as int),
            rsp0 == top - (env_size + arg_size),
            env_size + arg_size <= top,
            current == arg_size - strings_size(argv, j as int),
            strings@.len() == envs.len() + j,
            argp@.len() == j,
            forall|k: int| 0 <= k < envs.len() ==> (#[trigger] strings@[k]).0 == env_addr(top, envs, k)
                && strings@[k].1@ == utf8(envs[k]).push(0u8),
            forall|k: int| 0 <= k < j ==> (#[trigger] strings@[envs.len() + k]).0 == arg_addr(top, envs, argv, k)
                && strings@[envs.len() + k].1@ == utf8(argv[k]).push(0u8),
            forall|k: int| 0 <= k < j ==> (#[trigger] argp@[k]) == arg_addr(top, envs, argv, k),
        decreases argv.len() - j,
    {
        proof {
            lemma_strings_size_mono(argv, j + 1, argv.len() as int);
            lemma_strings_size_mono(argv, 0, j + 1);
        }
        let bytes = c_string_bytes(&args[j]);
        let len = bytes.len() as u64;
        assert(len == utf8(argv[j as int]).len() + 1);
        assert(strings_size(argv, j + 1) == strings_size(argv, j as int) + len);
        current = current - len;
        assert(current == arg_size - strings_size(argv, j + 1));
        assert(strings_size(argv, j + 1) <= arg_size);
        assert(rsp0 + current == top - env_size - strings_size(argv, j + 1));
        let addr = rsp0 + current;
        strings.push((addr, bytes));
        argp.push(addr);
        j = j + 1;
    }
    let n_args = args.len() as u64;
    let n_envs = envvars.len() as u64;
    let n_aux = auxvs.len() as u64;
    let rsp1 = rsp0 - (n_aux * 16 + n_envs * 8 + n_args * 8 + 24);
    let alignment = rsp1 % 16;
    let rsp = rsp1 - alignment;

    let mut words: Vec<u64> = Vec::new();
    words.push(n_args);
    let mut k: usize = 0;
    while k < argp.len()
        invariant
            k <= argp@.len(),
            words@ == seq![n_args] + argp@.take(k as int),
        decreases argp@.len() - k,
    {
        words.push(argp[k]);
        assert(argp@.take(k + 1) =~= argp@.take(k as int).push(argp@[k as int]));
        k = k + 1;
    }
    words.push(0);
    let mut k: usize = 0;
    while k < envp.len()
        invariant
            k <= envp@.len(),
            words@ == seq![n_args] + argp@ + seq![0u64] + envp@.take(k as int),
        decreases envp@.len() - k,
    {
        words.push(envp[k]);
        assert(envp@.take(k + 1) =~= envp@.take(k as int).push(envp@[k as int]));
        k = k + 1;
    }
    words.push(0);
    let ghost head = seq![n_args] + argp@ + seq![0u64] + envp@ + seq![0u64];
    assert(argp@.take(argp@.len() as int) =~= argp@);
    assert(envp@.take(envp@.len() as int) =~= envp@);
    let mut k: usize = 0;
    while k < auxvs.len()
        invariant
            k <= auxvs@.len(),
            words@ == head + Seq::new(2 * k as nat, |m: int| if m % 2 == 0 { auxvs@[m / 2].auxv_type } else { auxvs@[m / 2].value }),
        decreases auxvs@.len() - k,
    {
        let a = auxvs[k];
        words.push(a.auxv_type);
        words.push(a.value);
        assert(Seq::new(2 * (k + 1) as nat, |m: int| if m % 2 == 0 { auxvs@[m / 2].auxv_type } else { auxvs@[m / 2].value })
            =~= Seq::new(2 * k as nat, |m: int| if m % 2 == 0 { auxvs@[m / 2].auxv_type } else { auxvs@[m / 2].value })
                .push(a.auxv_type).push(a.value));
        k = k + 1;
    }
    assert(argp@ =~= Seq::new(argv.len(), |m: int| arg_addr(top, envs, argv, m) as u64));
    assert(envp@ =~= Seq::new(envs.len(), |m: int| env_addr(top, envs, m) as u64));
    assert(words@ =~= stack_words(top, envs, argv, auxvs@));
    let mut image = encode_words(&words);
    let ghost wb = image@;
    let mut z: u64 = 0;
    while z < alignment
        invariant
            z <= alignment,
            alignment < 16,
            image@ == wb + Seq::new(z as nat, |i: int| 0u8),
        decreases alignment - z,
    {
        image.push(0u8);
        assert(Seq::new((z + 1) as nat, |i: int| 0u8) =~= Seq::new(z as nat, |i: int| 0u8).push(0u8));
        z = z + 1;
    }
    StackPlan { strings, rsp, image }
}

} // verus!
