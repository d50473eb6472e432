use vstd::prelude::*;
use vstd::string::StringSliceAdditionalSpecFns;

verus! {

/// The UTF-8 bytes of a string value, the unit the wire format measures and
/// transmits.
pub open spec fn str_bytes(s: Seq<char>) -> Seq<u8> {
    vstd::utf8::encode_utf8(s)
}

/// The UTF-8 bytes of each string in a list, in order.
pub open spec fn strs_bytes(v: Seq<String>) -> Seq<Seq<u8>> {
    v.map_values(|s: String| str_bytes(s@))
}

/// The shortest decimal numeral for `n`, as ASCII digit bytes.
pub open spec fn decimal_digits(n: nat) -> Seq<u8>
    decreases n,
{
    if n < 10 {
        seq![(n + 48) as u8]
    } else {
        decimal_digits(n / 10).push((n % 10 + 48) as u8)
    }
}

/// Appends the decimal numeral of `n` to `out`.
pub fn push_decimal(out: &mut Vec<u8>, n: u64)
    ensures
        final(out)@ == old(out)@ + decimal_digits(n as nat),
    decreases n,
{
    if n < 10 {
        out.push((n as u8) + 48);
        assert(out@ =~= old(out)@ + decimal_digits(n as nat));
    } else {
        push_decimal(out, n / 10);
        out.push((n % 10) as u8 + 48);
        assert(out@ =~= old(out)@ + decimal_digits(n as nat));
    }
}

/// The wire framing of one single-valued field:
/// `F` + key + NUL + decimal byte-length + NUL + value + NUL.
pub open spec fn encode_single(key: Seq<u8>, value: Seq<u8>) -> Seq<u8> {
    seq![70u8] + key + seq![0u8] + decimal_digits(value.len()) + seq![0u8] + value + seq![0u8]
}

/// The items of a list joined by NUL bytes.
pub open spec fn join_nul(items: Seq<Seq<u8>>) -> Seq<u8>
    decreases items.len(),
{
    if items.len() == 0 {
        Seq::empty()
    } else if items.len() == 1 {
        items[0]
    } else {
        items[0] + seq![0u8] + join_nul(items.drop_first())
    }
}

/// The wire framing of one list-valued field:
/// `V` + key + NUL + decimal item count + NUL + items joined by NUL + NUL.
pub open spec fn encode_list(key: Seq<u8>, items: Seq<Seq<u8>>) -> Seq<u8> {
    seq![86u8] + key + seq![0u8] + decimal_digits(items.len()) + seq![0u8] + join_nul(items)
        + seq![0u8]
}

/// One named unit of request data: a single value or an ordered list of
/// values. An empty payload encodes to nothing at all.
#[derive(Clone, Debug)]
pub enum Payload<'a> {
    One(&'a str),
    Many(&'a Vec<String>),
}

impl Payload<'_> {
    /// Emptiness suppresses encoding: an empty string, or an empty list.
    pub open spec fn spec_is_empty(&self) -> bool {
        match self {
            Payload::One(s) => s.spec_bytes().len() == 0,
            Payload::Many(v) => v@.len() == 0,
        }
    }

    /// The exact bytes this payload contributes to a request under `key`.
    pub open spec fn spec_encode(&self, key: Seq<u8>) -> Seq<u8> {
        match self {
            Payload::One(s) => if s.spec_bytes().len() == 0 {
                Seq::empty()
            } else {
                encode_single(key, s.spec_bytes())
            },
            Payload::Many(v) => if v@.len() == 0 {
                Seq::empty()
            } else {
                encode_list(key, strs_bytes(v@))
            },
        }
    }

    pub fn is_empty(&self) -> (r: bool)
        ensures
            r == self.spec_is_empty(),
    {
        match self {
            Payload::One(s) => s.as_bytes().len() == 0,
            Payload::Many(v) => v.len() == 0,
        }
    }

    /// Encodes this payload under `key` in the backend's wire format.
    pub fn encode(&self, key: &str) -> (r: Vec<u8>)
        ensures
            r@ == self.spec_encode(key.spec_bytes()),
    {
        let mut out: Vec<u8> = Vec::new();
        if self.is_empty() {
            return out;
        }
        match self {
            Payload::One(s) => {
                let value = s.as_bytes();
                out.push(70);
                out.extend_from_slice(key.as_bytes());
                out.push(0);
                push_decimal(&mut out, value.len() as u64);
                out.push(0);
                out.extend_from_slice(value);
                out.push(0);
                assert(out@ =~= encode_single(key.spec_bytes(), s.spec_bytes()));
            },
            Payload::Many(v) => {
                out.push(86);
                out.extend_from_slice(key.as_bytes());
                out.push(0);
                push_decimal(&mut out, v.len() as u64);
                out.push(0);
                let ghost header = out@;
                let ghost items = strs_bytes(v@);
                let mut i: usize = 0;
                while i < v.len()
                    invariant
                        1 <= v@.len(),
                        i <= v@.len(),
                        items == strs_bytes(v@),
                        out@ == header + join_nul(items.take(i as int)),
                    decreases v@.len() - i,
                {
                    if i > 0 {
                        out.push(0);
                    }
                    out.extend_from_slice(v[i].as_str().as_bytes());
                    proof {
                        assert(items[i as int] == str_bytes(v@[i as int]@));
                        lemma_join_nul_snoc(items, i as int);
                        assert(items.take(i + 1).drop_last() =~= items.take(i as int));
                        assert(items.take(i + 1).last() == items[i as int]);
                        assert(out@ =~= header + join_nul(items.take(i + 1)));
                    }
                    i += 1;
                }
                out.push(0);
                proof {
                    assert(items.take(v@.len() as int) =~= items);
                    assert(out@ =~= encode_list(key.spec_bytes(), items));
                }
            },
        }
        out
    }
}

/// An empty payload contributes no bytes at all to a request, whatever its
/// key: an empty single value and an empty list alike.
pub proof fn lemma_empty_payload_encodes_nothing(p: Payload<'_>, key: Seq<u8>)
    requires
        p.spec_is_empty(),
    ensures
        p.spec_encode(key) == Seq::<u8>::empty(),
{
}

/// Configuration for one execution request. `code` and `lang` are required by
/// the backend; every other field defaults to empty, which suppresses its
/// encoding entirely.
#[derive(Clone, Debug)]
pub struct ExecOpts {
    pub code: String,
    pub lang: String,
    pub stdin: String,
    pub compiler_flags: Vec<String>,
    pub cli_options: Vec<String>,
    pub args: Vec<String>,
}

impl Default for ExecOpts {
    fn default() -> (r: ExecOpts)
        ensures
            r.code@.len() == 0,
            r.lang@.len() == 0,
            r.stdin@.len() == 0,
            r.compiler_flags@.len() == 0,
            r.cli_options@.len() == 0,
            r.args@.len() == 0,
    {
        ExecOpts {
            code: String::new(),
            lang: String::new(),
            stdin: String::new(),
            compiler_flags: Vec::new(),
            cli_options: Vec::new(),
            args: Vec::new(),
        }
    }
}

/// A single-valued field's contribution: nothing when the value is empty.
pub open spec fn spec_one_field(key: Seq<u8>, value: Seq<u8>) -> Seq<u8> {
    if value.len() == 0 {
        Seq::empty()
    } else {
        encode_single(key, value)
    }
}

/// A list-valued field's contribution: nothing when the list is empty.
pub open spec fn spec_many_field(key: Seq<u8>, items: Seq<Seq<u8>>) -> Seq<u8> {
    if items.len() == 0 {
        Seq::empty()
    } else {
        encode_list(key, items)
    }
}

/// The whole uncompressed request: every field in the backend's fixed order,
/// then the run marker byte `R`. The language travels as a one-item list.
pub open spec fn spec_request_payload(o: ExecOpts) -> Seq<u8> {
    spec_many_field("lang".spec_bytes(), seq![str_bytes(o.lang@)]) + spec_one_field(
        ".code.tio".spec_bytes(),
        str_bytes(o.code@),
    ) + spec_one_field(".input.tio".spec_bytes(), str_bytes(o.stdin@)) + spec_many_field(
        "TIO_CFLAGS".spec_bytes(),
        strs_bytes(o.compiler_flags@),
    ) + spec_many_field("TIO_OPTIONS".spec_bytes(), strs_bytes(o.cli_options@)) + spec_many_field(
        "args".spec_bytes(),
        strs_bytes(o.args@),
    ) + seq![82u8]
}

/// Encodes every field of a request in the backend's fixed order and appends
/// the run marker.
#[verifier::rlimit(30)]
pub fn encode_request_fields(opts: &ExecOpts) -> (r: Vec<u8>)
    ensures
        r@ == spec_request_payload(*opts),
{
    let mut out: Vec<u8> = Vec::new();
    let lang_items: Vec<String> = vec![opts.lang.clone()];
    let e_lang = Payload::Many(&lang_items).encode("lang");
    out.extend_from_slice(e_lang.as_slice());
    proof {
        assert(strs_bytes(lang_items@) =~= seq![str_bytes(opts.lang@)]);
        assert(out@ =~= e_lang@);
    }
    let e_code = Payload::One(opts.code.as_str()).encode(".code.tio");
    out.extend_from_slice(e_code.as_slice());
    let e_stdin = Payload::One(opts.stdin.as_str()).encode(".input.tio");
    out.extend_from_slice(e_stdin.as_slice());
    let e_cflags = Payload::Many(&opts.compiler_flags).encode("TIO_CFLAGS");
    out.extend_from_slice(e_cflags.as_slice());
    let e_opts = Payload::Many(&opts.cli_options).encode("TIO_OPTIONS");
    out.extend_from_slice(e_opts.as_slice());
    let e_args = Payload::Many(&opts.args).encode("args");
    out.extend_from_slice(e_args.as_slice());
    out.push(82);
    proof {
        assert(out@ =~= spec_request_payload(*opts));
    }
    out
}

/// Joining one more item appends a NUL separator and the item, unless it is
/// the first.
proof fn lemma_join_nul_snoc(items: Seq<Seq<u8>>, i: int)
    requires
        0 <= i < items.len(),
    ensures
        join_nul(items.take(i + 1)) == if i == 0 {
            items[0]
        } else {
            join_nul(items.take(i)) + seq![0u8] + items[i]
        },
    decreases i,
{
    let cur = items.take(i + 1);
    if i == 0 {
        assert(cur.len() == 1);
        assert(join_nul(cur) == cur[0]);
        assert(cur[0] == items[0]);
    } else {
        lemma_join_nul_snoc(items.drop_first(), i - 1);
        assert(cur.len() >= 2);
        assert(join_nul(cur) == cur[0] + seq![0u8] + join_nul(cur.drop_first()));
        assert(cur.drop_first() =~= items.drop_first().take(i));
        assert(items.drop_first().take(i).drop_last() =~= items.drop_first().take(i - 1));
        assert(items.take(i).drop_first() =~= items.drop_first().take(i - 1));
        assert(join_nul(items.take(i)) == if i == 1 {
            items[0]
        } else {
            items[0] + seq![0u8] + join_nul(items.take(i).drop_first())
        });
        assert(join_nul(cur) =~= join_nul(items.take(i)) + seq![0u8] + items[i]);
    }
}

} // verus!
