use vstd::prelude::*;

verus! {

/// Byte that marks an interpolation point in a template.
pub const PLACEHOLDER: u8 = 37;

/// Line terminator appended by the line-oriented print wrapper.
pub const NEWLINE: u8 = 10;

/// A value to interpolate at a placeholder.
pub enum Value {
    /// An unsigned integer, rendered as decimal text.
    Uint(u64),
    /// Literal text, inserted exactly as given.
    Text(Vec<u8>),
}

/// Decimal digits of `n`, most significant first.
pub open spec fn spec_digits(n: nat) -> Seq<u8>
    decreases n,
{
    if n < 10 {
        seq![(48 + n) as u8]
    } else {
        spec_digits(n / 10).push((48 + n % 10) as u8)
    }
}

/// The bytes a single value renders to.
pub open spec fn value_bytes(v: Value) -> Seq<u8> {
    match v {
        Value::Uint(n) => spec_digits(n as nat),
        Value::Text(b) => b@,
    }
}

/// A rendering outcome extended on success with a leading piece of text.
pub open spec fn prefixed(p: Seq<u8>, r: Option<Seq<u8>>) -> Option<Seq<u8>> {
    match r {
        Some(s) => Some(p + s),
        None => None,
    }
}

/// Number of placeholder bytes in a template.
pub open spec fn placeholder_count(t: Seq<u8>) -> nat
    decreases t.len(),
{
    if t.len() == 0 {
        0
    } else {
        (if t[0] == PLACEHOLDER { 1nat } else { 0nat }) + placeholder_count(t.skip(1))
    }
}

/// The text a template renders to against a list of values: each placeholder
/// byte consumes the next value, every other byte is copied through. `None`
/// exactly when the number of placeholders differs from the number of values.
pub open spec fn spec_render(t: Seq<u8>, vals: Seq<Value>) -> Option<Seq<u8>>
    decreases t.len(),
{
    if t.len() == 0 {
        if vals.len() == 0 {
            Some(Seq::empty())
        } else {
            None
        }
    } else if t[0] == PLACEHOLDER {
        if vals.len() == 0 {
            None
        } else {
            prefixed(value_bytes(vals[0]), spec_render(t.skip(1), vals.skip(1)))
        }
    } else {
        prefixed(seq![t[0]], spec_render(t.skip(1), vals))
    }
}

/// Why a rendering was refused.
#[derive(Debug, PartialEq, Eq)]
pub enum RenderError {
    /// A placeholder had no value left to consume.
    MissingValue,
    /// Values remained after the last placeholder.
    UnusedValue,
}

/// Render an unsigned integer as decimal text.
pub fn format_u64(n: u64) -> (r: Vec<u8>)
    ensures
        r@ == spec_digits(n as nat),
    decreases n,
{
    if n < 10 {
        let mut r: Vec<u8> = Vec::new();
        r.push(48 + n as u8);
        proof {
            assert(r@ =~= spec_digits(n as nat));
        }
        r
    } else {
        let mut r = format_u64(n / 10);
        r.push(48 + (n % 10) as u8);
        r
    }
}

/// Copy a byte vector.
pub(crate) fn copy_bytes(src: &Vec<u8>) -> (r: Vec<u8>)
    ensures
        r@ == src@,
{
    let mut r: Vec<u8> = Vec::new();
    let mut i: usize = 0;
    while i < src.len()
        invariant
            i <= src.len(),
            r@ == src@.take(i as int),
        decreases src.len() - i,
    {
        r.push(src[i]);
        i = i + 1;
        proof {
            assert(r@ =~= src@.take(i as int));
        }
    }
    proof {
        assert(src@.take(src@.len() as int) =~= src@);
    }
    r
}

/// Render one value to its bytes.
pub fn render_value(v: &Value) -> (r: Vec<u8>)
    ensures
        r@ == value_bytes(*v),
{
    match v {
        Value::Uint(n) => format_u64(*n),
        Value::Text(b) => copy_bytes(b),
    }
}

proof fn lemma_count_push(s: Seq<u8>, b: u8)
    ensures
        placeholder_count(s.push(b)) == placeholder_count(s) + (if b == PLACEHOLDER {
            1nat
        } else {
            0nat
        }),
    decreases s.len(),
{
    if s.len() == 0 {
        assert(s.push(b).skip(1) =~= Seq::<u8>::empty());
        assert(s.push(b)[0] == b);
        assert(placeholder_count(s.push(b)) == (if b == PLACEHOLDER {
            1nat
        } else {
            0nat
        }) + placeholder_count(s.push(b).skip(1)));
    } else {
        lemma_count_push(s.skip(1), b);
        assert(s.push(b).skip(1) =~= s.skip(1).push(b));
        assert(s.push(b)[0] == s[0]);
        assert(placeholder_count(s.push(b)) == (if s[0] == PLACEHOLDER {
            1nat
        } else {
            0nat
        }) + placeholder_count(s.push(b).skip(1)));
    }
}

proof fn lemma_count_split(t: Seq<u8>, i: int)
    requires
        0 <= i <= t.len(),
    ensures
        placeholder_count(t) == placeholder_count(t.take(i)) + placeholder_count(t.skip(i)),
    decreases i,
{
    if i == 0 {
        assert(t.take(0) =~= Seq::<u8>::empty());
        assert(t.skip(0) =~= t);
    } else {
        lemma_count_split(t.skip(1), i - 1);
        assert(t.take(i).skip(1) =~= t.skip(1).take(i - 1));
        assert(t.skip(i) =~= t.skip(1).skip(i - 1));
        assert(t.take(i)[0] == t[0]);
    }
}

proof fn lemma_render_append_literal(t: Seq<u8>, vals: Seq<Value>, b: u8)
    requires
        b != PLACEHOLDER,
    ensures
        spec_render(t.push(b), vals) == (match spec_render(t, vals) {
            Some(s) => Some(s.push(b)),
            None => None::<Seq<u8>>,
        }),
    decreases t.len(),
{
    if t.len() == 0 {
        assert(t.push(b).skip(1) =~= Seq::<u8>::empty());
        assert(t.push(b)[0] == b);
        assert(spec_render(t.push(b), vals) == prefixed(
            seq![b],
            spec_render(Seq::<u8>::empty(), vals),
        ));
        if vals.len() == 0 {
            assert(spec_render(t, vals) == Some(Seq::<u8>::empty()));
            assert(seq![b] + Seq::<u8>::empty() =~= Seq::<u8>::empty().push(b));
        } else {
            assert(spec_render(t, vals) is None);
            assert(spec_render(Seq::<u8>::empty(), vals) is None);
        }
    } else {
        assert(t.push(b).skip(1) =~= t.skip(1).push(b));
        assert(t.push(b)[0] == t[0]);
        if t[0] == PLACEHOLDER {
            if vals.len() > 0 {
                lemma_render_append_literal(t.skip(1), vals.skip(1), b);
                assert(spec_render(t.push(b), vals) == prefixed(
                    value_bytes(vals[0]),
                    spec_render(t.skip(1).push(b), vals.skip(1)),
                ));
                assert(spec_render(t, vals) == prefixed(
                    value_bytes(vals[0]),
                    spec_render(t.skip(1), vals.skip(1)),
                ));
                match spec_render(t.skip(1), vals.skip(1)) {
                    Some(s) => {
                        assert(value_bytes(vals[0]) + s.push(b) =~= (value_bytes(vals[0])
                            + s).push(b));
                    },
                    None => {},
                }
            } else {
                assert(spec_render(t.push(b), vals) is None);
                assert(spec_render(t, vals) is None);
            }
        } else {
            lemma_render_append_literal(t.skip(1), vals, b);
            assert(spec_render(t.push(b), vals) == prefixed(
                seq![t[0]],
                spec_render(t.skip(1).push(b), vals),
            ));
            assert(spec_render(t, vals) == prefixed(seq![t[0]], spec_render(t.skip(1), vals)));
            match spec_render(t.skip(1), vals) {
                Some(s) => {
                    assert(seq![t[0]] + s.push(b) =~= (seq![t[0]] + s).push(b));
                },
                None => {},
            }
        }
    }
}

/// The line wrapper's law: a template with the line terminator appended
/// renders to the plain rendering with exactly one newline byte appended —
/// never more, never fewer — and fails exactly when the plain rendering fails.
pub proof fn lemma_render_line(t: Seq<u8>, vals: Seq<Value>)
    ensures
        spec_render(t.push(NEWLINE), vals) == (match spec_render(t, vals) {
            Some(s) => Some(s.push(NEWLINE)),
            None => None::<Seq<u8>>,
        }),
        placeholder_count(t.push(NEWLINE)) == placeholder_count(t),
{
    lemma_render_append_literal(t, vals, NEWLINE);
    lemma_count_push(t, NEWLINE);
}

/// Render a template against its values.
pub fn render(template: &Vec<u8>, vals: &Vec<Value>) -> (r: Result<Vec<u8>, RenderError>)
    ensures
        (r is Ok) <==> placeholder_count(template@) == vals@.len(),
        (match r {
            Ok(out) => spec_render(template@, vals@) == Some(out@),
            Err(RenderError::MissingValue) => spec_render(template@, vals@) is None
                && placeholder_count(template@) > vals@.len(),
            Err(RenderError::UnusedValue) => spec_render(template@, vals@) is None
                && placeholder_count(template@) < vals@.len(),
        }),
{
    let mut out: Vec<u8> = Vec::new();
    let mut i: usize = 0;
    let mut vi: usize = 0;
    proof {
        assert(template@.skip(0) =~= template@);
        assert(vals@.skip(0) =~= vals@);
        assert(template@.take(0) =~= Seq::<u8>::empty());
        match spec_render(template@, vals@) {
            Some(s) => {
                assert(Seq::<u8>::empty() + s =~= s);
            },
            None => {},
        }
    }
    while i < template.len()
        invariant
            i <= template.len(),
            vi <= vals.len(),
            placeholder_count(template@.take(i as int)) == vi as nat,
            spec_render(template@, vals@) == prefixed(
                out@,
                spec_render(template@.skip(i as int), vals@.skip(vi as int)),
            ),
        decreases template.len() - i,
    {
        let b = template[i];
        proof {
            assert(template@.skip(i as int)[0] == template@[i as int]);
            assert(template@.skip(i as int).skip(1) =~= template@.skip(i as int + 1));
            assert(template@.take(i as int + 1) =~= template@.take(i as int).push(
                template@[i as int],
            ));
            lemma_count_push(template@.take(i as int), template@[i as int]);
        }
        if b == PLACEHOLDER {
            if vi == vals.len() {
                proof {
                    assert(vals@.skip(vi as int) =~= Seq::<Value>::empty());
                    lemma_count_split(template@, i as int);
                }
                return Err(RenderError::MissingValue);
            }
            let ghost old_out = out@;
            let mut piece = render_value(&vals[vi]);
            out.append(&mut piece);
            proof {
                assert(vals@.skip(vi as int)[0] == vals@[vi as int]);
                assert(vals@.skip(vi as int).skip(1) =~= vals@.skip(vi as int + 1));
                match spec_render(template@.skip(i as int + 1), vals@.skip(vi as int + 1)) {
                    Some(s) => {
                        assert(old_out + (value_bytes(vals@[vi as int]) + s) =~= (old_out
                            + value_bytes(vals@[vi as int])) + s);
                    },
                    None => {},
                }
            }
            vi = vi + 1;
        } else {
            let ghost old_out = out@;
            out.push(b);
            proof {
                match spec_render(template@.skip(i as int + 1), vals@.skip(vi as int)) {
                    Some(s) => {
                        assert(old_out + (seq![b] + s) =~= old_out.push(b) + s);
                    },
                    None => {},
                }
            }
        }
        i = i + 1;
    }
    proof {
        assert(template@.take(template@.len() as int) =~= template@);
        assert(template@.skip(template@.len() as int) =~= Seq::<u8>::empty());
    }
    if vi < vals.len() {
        proof {
            assert(vals@.skip(vi as int).len() > 0);
        }
        Err(RenderError::UnusedValue)
    } else {
        proof {
            assert(vals@.skip(vi as int) =~= Seq::<Value>::empty());
            assert(out@ + Seq::<u8>::empty() =~= out@);
        }
        Ok(out)
    }
}

} // verus!
