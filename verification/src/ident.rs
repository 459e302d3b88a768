//! Delivery identifiers.
//!
//! A message identifier is minted at delivery time from a uniqueness
//! tuple — wall-clock seconds and nanoseconds, process id, device and
//! inode number of the staged file, host name, and size — laid out as
//! `<secs>.M<nanos>P<pid>V<dev>I<ino>.<host>,S=<size>`.  The staging name
//! used under `tmp` is the shorter `<secs>.M<nanos>P<pid>.<host>`.  The
//! central fact proved here: on one host the layout is injective, so
//! deliveries whose tuples differ anywhere mint distinct identifiers.

use vstd::prelude::*;

use crate::digits::dec_rep;
use crate::digits::is_digit;
use crate::digits::lemma_dec_rep_digits;
use crate::digits::lemma_dec_rep_injective;
use crate::digits::lemma_digit_run_split;
use crate::digits::u64_to_dec;
use crate::errors::MaildirError;

verus! {

/// The staging filename for a delivery attempt: time, process and host,
/// enough to keep two live delivery attempts apart.
pub open spec fn staging_name_spec(secs: nat, nanos: nat, pid: nat, host: Seq<char>) -> Seq<char> {
    dec_rep(secs) + (seq!['.', 'M'] + (dec_rep(nanos) + (seq!['P'] + (dec_rep(pid) + (seq!['.']
        + host)))))
}

/// The final message identifier: the staging tuple strengthened with the
/// staged file's device, inode and size.
pub open spec fn message_id_spec(
    secs: nat,
    nanos: nat,
    pid: nat,
    dev: nat,
    ino: nat,
    host: Seq<char>,
    size: nat,
) -> Seq<char> {
    dec_rep(secs) + (seq!['.', 'M'] + (dec_rep(nanos) + (seq!['P'] + (dec_rep(pid) + (seq!['V']
        + (dec_rep(dev) + (seq!['I'] + (dec_rep(ino) + (seq!['.'] + (host + (seq![',', 'S', '=']
        + dec_rep(size))))))))))))
}

/// Peeling a decimal field off the front of two equal strings: the
/// numbers and the remainders agree.
proof fn lemma_peel_number(a1: nat, t1: Seq<char>, a2: nat, t2: Seq<char>)
    requires
        t1.len() > 0,
        !is_digit(t1[0]),
        t2.len() > 0,
        !is_digit(t2[0]),
        dec_rep(a1) + t1 == dec_rep(a2) + t2,
    ensures
        a1 == a2,
        t1 == t2,
{
    lemma_dec_rep_digits(a1);
    lemma_dec_rep_digits(a2);
    lemma_digit_run_split(dec_rep(a1), t1, dec_rep(a2), t2);
    lemma_dec_rep_injective(a1, a2);
}

/// Stripping one common prefix off two equal strings: the remainders
/// agree.
proof fn lemma_strip_prefix(p: Seq<char>, u1: Seq<char>, u2: Seq<char>)
    requires
        p + u1 == p + u2,
    ensures
        u1 == u2,
{
    assert((p + u1).len() == p.len() + u1.len());
    assert((p + u2).len() == p.len() + u2.len());
    assert forall|i: int| 0 <= i < u1.len() implies u1[i] == u2[i] by {
        assert(u1[i] == (p + u1)[i + p.len()]);
        assert(u2[i] == (p + u2)[i + p.len()]);
    }
    assert(u1 =~= u2);
}

/// On one host the identifier layout is injective: equal identifiers
/// can only come from equal uniqueness tuples.
pub proof fn lemma_message_id_injective(
    secs1: nat,
    nanos1: nat,
    pid1: nat,
    dev1: nat,
    ino1: nat,
    size1: nat,
    secs2: nat,
    nanos2: nat,
    pid2: nat,
    dev2: nat,
    ino2: nat,
    size2: nat,
    host: Seq<char>,
)
    requires
        message_id_spec(secs1, nanos1, pid1, dev1, ino1, host, size1) == message_id_spec(
            secs2,
            nanos2,
            pid2,
            dev2,
            ino2,
            host,
            size2,
        ),
    ensures
        secs1 == secs2,
        nanos1 == nanos2,
        pid1 == pid2,
        dev1 == dev2,
        ino1 == ino2,
        size1 == size2,
{
    let z1 = seq![',', 'S', '='] + dec_rep(size1);
    let z2 = seq![',', 'S', '='] + dec_rep(size2);
    let h1 = seq!['.'] + (host + z1);
    let h2 = seq!['.'] + (host + z2);
    let i1 = dec_rep(ino1) + h1;
    let i2 = dec_rep(ino2) + h2;
    let d1 = seq!['I'] + i1;
    let d2 = seq!['I'] + i2;
    let e1 = dec_rep(dev1) + d1;
    let e2 = dec_rep(dev2) + d2;
    let v1 = seq!['V'] + e1;
    let v2 = seq!['V'] + e2;
    let p1 = dec_rep(pid1) + v1;
    let p2 = dec_rep(pid2) + v2;
    let q1 = seq!['P'] + p1;
    let q2 = seq!['P'] + p2;
    let n1 = dec_rep(nanos1) + q1;
    let n2 = dec_rep(nanos2) + q2;
    let m1 = seq!['.', 'M'] + n1;
    let m2 = seq!['.', 'M'] + n2;
    assert(message_id_spec(secs1, nanos1, pid1, dev1, ino1, host, size1) == dec_rep(secs1) + m1);
    assert(message_id_spec(secs2, nanos2, pid2, dev2, ino2, host, size2) == dec_rep(secs2) + m2);
    assert(m1[0] == '.');
    assert(m2[0] == '.');
    lemma_peel_number(secs1, m1, secs2, m2);
    lemma_strip_prefix(seq!['.', 'M'], n1, n2);
    assert(q1[0] == 'P');
    assert(q2[0] == 'P');
    lemma_peel_number(nanos1, q1, nanos2, q2);
    lemma_strip_prefix(seq!['P'], p1, p2);
    assert(v1[0] == 'V');
    assert(v2[0] == 'V');
    lemma_peel_number(pid1, v1, pid2, v2);
    lemma_strip_prefix(seq!['V'], e1, e2);
    assert(d1[0] == 'I');
    assert(d2[0] == 'I');
    lemma_peel_number(dev1, d1, dev2, d2);
    lemma_strip_prefix(seq!['I'], i1, i2);
    assert(h1[0] == '.');
    assert(h2[0] == '.');
    lemma_peel_number(ino1, h1, ino2, h2);
    lemma_strip_prefix(seq!['.'], host + z1, host + z2);
    lemma_strip_prefix(host, z1, z2);
    lemma_strip_prefix(seq![',', 'S', '='], dec_rep(size1), dec_rep(size2));
    lemma_dec_rep_injective(size1, size2);
}

/// Two deliveries on one host whose uniqueness tuples differ anywhere
/// mint distinct identifiers.
pub proof fn lemma_message_id_distinct(
    secs1: nat,
    nanos1: nat,
    pid1: nat,
    dev1: nat,
    ino1: nat,
    size1: nat,
    secs2: nat,
    nanos2: nat,
    pid2: nat,
    dev2: nat,
    ino2: nat,
    size2: nat,
    host: Seq<char>,
)
    requires
        secs1 != secs2 || nanos1 != nanos2 || pid1 != pid2 || dev1 != dev2 || ino1 != ino2
            || size1 != size2,
    ensures
        message_id_spec(secs1, nanos1, pid1, dev1, ino1, host, size1) != message_id_spec(
            secs2,
            nanos2,
            pid2,
            dev2,
            ino2,
            host,
            size2,
        ),
{
    if message_id_spec(secs1, nanos1, pid1, dev1, ino1, host, size1) == message_id_spec(
        secs2,
        nanos2,
        pid2,
        dev2,
        ino2,
        host,
        size2,
    ) {
        lemma_message_id_injective(
            secs1,
            nanos1,
            pid1,
            dev1,
            ino1,
            size1,
            secs2,
            nanos2,
            pid2,
            dev2,
            ino2,
            size2,
            host,
        );
    }
}

/// On one host the staging-name layout is injective as well: a staging
/// name pins down time and process of the delivery attempt.
pub proof fn lemma_staging_name_injective(
    secs1: nat,
    nanos1: nat,
    pid1: nat,
    secs2: nat,
    nanos2: nat,
    pid2: nat,
    host: Seq<char>,
)
    requires
        staging_name_spec(secs1, nanos1, pid1, host) == staging_name_spec(
            secs2,
            nanos2,
            pid2,
            host,
        ),
    ensures
        secs1 == secs2,
        nanos1 == nanos2,
        pid1 == pid2,
{
    let h1 = seq!['.'] + host;
    let h2 = seq!['.'] + host;
    let p1 = dec_rep(pid1) + h1;
    let p2 = dec_rep(pid2) + h2;
    let q1 = seq!['P'] + p1;
    let q2 = seq!['P'] + p2;
    let n1 = dec_rep(nanos1) + q1;
    let n2 = dec_rep(nanos2) + q2;
    let m1 = seq!['.', 'M'] + n1;
    let m2 = seq!['.', 'M'] + n2;
    assert(staging_name_spec(secs1, nanos1, pid1, host) == dec_rep(secs1) + m1);
    assert(staging_name_spec(secs2, nanos2, pid2, host) == dec_rep(secs2) + m2);
    assert(m1[0] == '.');
    assert(m2[0] == '.');
    lemma_peel_number(secs1, m1, secs2, m2);
    lemma_strip_prefix(seq!['.', 'M'], n1, n2);
    assert(q1[0] == 'P');
    assert(q2[0] == 'P');
    lemma_peel_number(nanos1, q1, nanos2, q2);
    lemma_strip_prefix(seq!['P'], p1, p2);
    assert(h1[0] == '.');
    assert(h2[0] == '.');
    lemma_peel_number(pid1, h1, pid2, h2);
}

/// The staging filename for a delivery attempt.
pub fn staging_name(secs: u64, nanos: u32, pid: u64, host: &str) -> (r: String)
    ensures
        r@ == staging_name_spec(secs as nat, nanos as nat, pid as nat, host@),
{
    let mut s = u64_to_dec(secs);
    s.append(".M");
    s.append(u64_to_dec(nanos as u64).as_str());
    s.append("P");
    s.append(u64_to_dec(pid).as_str());
    s.append(".");
    s.append(host);
    proof {
        reveal_strlit(".M");
        reveal_strlit("P");
        reveal_strlit(".");
        assert((".M")@ =~= seq!['.', 'M']);
        assert(("P")@ =~= seq!['P']);
        assert((".")@ =~= seq!['.']);
        assert(s@ =~= staging_name_spec(secs as nat, nanos as nat, pid as nat, host@));
    }
    s
}

/// The final message identifier for a delivery.
pub fn message_id(
    secs: u64,
    nanos: u32,
    pid: u64,
    dev: u64,
    ino: u64,
    host: &str,
    size: u64,
) -> (r: String)
    ensures
        r@ == message_id_spec(
            secs as nat,
            nanos as nat,
            pid as nat,
            dev as nat,
            ino as nat,
            host@,
            size as nat,
        ),
{
    let mut s = u64_to_dec(secs);
    s.append(".M");
    s.append(u64_to_dec(nanos as u64).as_str());
    s.append("P");
    s.append(u64_to_dec(pid).as_str());
    s.append("V");
    s.append(u64_to_dec(dev).as_str());
    s.append("I");
    s.append(u64_to_dec(ino).as_str());
    s.append(".");
    s.append(host);
    s.append(",S=");
    s.append(u64_to_dec(size).as_str());
    proof {
        reveal_strlit(".M");
        reveal_strlit("P");
        reveal_strlit("V");
        reveal_strlit("I");
        reveal_strlit(".");
        reveal_strlit(",S=");
        assert((".M")@ =~= seq!['.', 'M']);
        assert(("P")@ =~= seq!['P']);
        assert(("V")@ =~= seq!['V']);
        assert(("I")@ =~= seq!['I']);
        assert((".")@ =~= seq!['.']);
        assert((",S=")@ =~= seq![',', 'S', '=']);
        let a1 = dec_rep(secs as nat);
        let a2 = seq!['.', 'M'];
        let a3 = dec_rep(nanos as nat);
        let a4 = seq!['P'];
        let a5 = dec_rep(pid as nat);
        let a6 = seq!['V'];
        let a7 = dec_rep(dev as nat);
        let a8 = seq!['I'];
        let a9 = dec_rep(ino as nat);
        let a10 = seq!['.'];
        let a11 = host@;
        let a12 = seq![',', 'S', '='];
        let a13 = dec_rep(size as nat);
        let l2 = a1 + a2;
        let l3 = l2 + a3;
        let l4 = l3 + a4;
        let l5 = l4 + a5;
        let l6 = l5 + a6;
        let l7 = l6 + a7;
        let l8 = l7 + a8;
        let l9 = l8 + a9;
        let l10 = l9 + a10;
        let l11 = l10 + a11;
        let l12 = l11 + a12;
        let l13 = l12 + a13;
        assert(s@ == l13);
        let r12 = a12 + a13;
        let r11 = a11 + r12;
        let r10 = a10 + r11;
        let r9 = a9 + r10;
        let r8 = a8 + r9;
        let r7 = a7 + r8;
        let r6 = a6 + r7;
        let r5 = a5 + r6;
        let r4 = a4 + r5;
        let r3 = a3 + r4;
        let r2 = a2 + r3;
        vstd::seq_lib::lemma_concat_associative(l11, a12, a13);
        vstd::seq_lib::lemma_concat_associative(l10, a11, r12);
        vstd::seq_lib::lemma_concat_associative(l9, a10, r11);
        vstd::seq_lib::lemma_concat_associative(l8, a9, r10);
        vstd::seq_lib::lemma_concat_associative(l7, a8, r9);
        vstd::seq_lib::lemma_concat_associative(l6, a7, r8);
        vstd::seq_lib::lemma_concat_associative(l5, a6, r7);
        vstd::seq_lib::lemma_concat_associative(l4, a5, r6);
        vstd::seq_lib::lemma_concat_associative(l3, a4, r5);
        vstd::seq_lib::lemma_concat_associative(l2, a3, r4);
        vstd::seq_lib::lemma_concat_associative(a1, a2, r3);
        assert(s@ == a1 + r2);
        assert(message_id_spec(
            secs as nat,
            nanos as nat,
            pid as nat,
            dev as nat,
            ino as nat,
            host@,
            size as nat,
        ) == a1 + r2);
    }
    s
}

/// The ambient identity of one delivery: the delivering process and the
/// local host.
pub struct DeliveryIdentity {
    /// Process id of the delivering process.
    pub pid: u64,
    /// Local host name.
    pub host: String,
}

/// Relies on nix::unistd::getpid: returns the calling process's id,
/// which POSIX defines to be positive; the call cannot fail.
#[verifier::external_body]
fn current_pid() -> (r: i32)
    ensures
        r >= 0,
{
    nix::unistd::getpid().as_raw()
}

/// Relies on nix::unistd::gethostname: returns the local host name; the
/// result depends on machine state, so nothing is promised of the value.
/// `None` when the lookup fails or the name is not plain UTF-8.
#[verifier::external_body]
fn current_host() -> (r: Option<String>) {
    match nix::unistd::gethostname() {
        Ok(h) => h.into_string().ok(),
        Err(_) => None,
    }
}

/// Read the ambient identity for one delivery: the process id and the
/// local host name.  The values are machine state, so nothing is known
/// of them beyond the failure mapping.
pub fn delivery_identity() -> (r: Result<DeliveryIdentity, MaildirError>)
    ensures
        r matches Err(e) ==> e is Hostname,
{
    let pid = current_pid();
    match current_host() {
        Some(host) => Ok(DeliveryIdentity { pid: pid as u64, host }),
        None => Err(MaildirError::Hostname),
    }
}

} // verus!
