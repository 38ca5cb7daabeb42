//! Verified primitives shared by every document validator: the modulo-11
//! transforms, the weighted-sum checksum engine, digit extraction and left
//! padding.

use vstd::prelude::*;
use vstd::std_specs::iter::IteratorSpec;

verus! {

/// Remainder of `x` modulo 11, with a remainder of 10 mapped to 0, so the
/// result always fits in a single decimal check digit.
pub open spec fn espec_mod_11(x: int) -> int {
    if x % 11 == 10 {
        0
    } else {
        x % 11
    }
}

/// `11 - (x % 11)`, forced to 0 when that difference exceeds 9 (that is,
/// when the remainder was 0 or 1).
pub open spec fn espec_onze_menos_mod11(x: int) -> int {
    if 11 - x % 11 > 9 {
        0
    } else {
        11 - x % 11
    }
}

/// Plain modulo 11 of a weighted sum, except that a remainder of 10 becomes 0.
pub fn mod_11(value: u32) -> (r: usize)
    ensures
        r == espec_mod_11(value as int),
        r <= 9,
{
    let resto: u32 = value % 11;
    if resto == 10 {
        0
    } else {
        resto as usize
    }
}

/// Some documents derive their check digit as `11 - (sum % 11)` instead,
/// capping the two overflowing cases (10 and 11) to 0.
pub fn onze_menos_mod11(value: u32) -> (r: u32)
    ensures
        r == espec_onze_menos_mod11(value as int),
        r <= 9,
{
    let res: u32 = 11 - value % 11;
    if res > 9 {
        0
    } else {
        res
    }
}

/// The modulo-11 transform is periodic with period 11 and never yields 10:
/// adding any non-negative multiple of 11 to the sum leaves the check digit
/// unchanged, and the digit always lies between 0 and 9.
pub proof fn lema_mod_11_periodico(x: int, k: int)
    requires
        k >= 0,
    ensures
        espec_mod_11(x + 11 * k) == espec_mod_11(x),
        0 <= espec_mod_11(x) <= 9,
{
    vstd::arithmetic::div_mod::lemma_mod_multiples_vanish(k, x, 11);
}

/// Sum of each digit multiplied by the weight at the same index.  The
/// pairing is by position, never by value: this is the one invariant every
/// document format relies on.
pub open spec fn soma_ponderada(d: Seq<u32>, m: Seq<u32>) -> int
    recommends
        d.len() == m.len(),
    decreases d.len(),
{
    if d.len() == 0 {
        0
    } else {
        soma_ponderada(d.drop_last(), m.drop_last()) + d.last() * m.last()
    }
}

/// Extending both prefixes by one position adds exactly one product to the
/// weighted sum.
pub proof fn lema_soma_ponderada_passo(d: Seq<u32>, m: Seq<u32>, i: int)
    requires
        d.len() == m.len(),
        0 <= i < d.len(),
    ensures
        soma_ponderada(d.take(i + 1), m.take(i + 1)) == soma_ponderada(d.take(i), m.take(i)) + d[i]
            * m[i],
{
    assert(d.take(i + 1).drop_last() =~= d.take(i));
    assert(m.take(i + 1).drop_last() =~= m.take(i));
}

/// Every partial weighted sum is non-negative and no larger than the full
/// sum, because each product is non-negative.
pub proof fn lema_soma_ponderada_prefixo(d: Seq<u32>, m: Seq<u32>, i: int)
    requires
        d.len() == m.len(),
        0 <= i <= d.len(),
    ensures
        0 <= soma_ponderada(d.take(i), m.take(i)) <= soma_ponderada(d, m),
    decreases d.len() - i,
{
    if i == d.len() {
        assert(d.take(i) =~= d);
        assert(m.take(i) =~= m);
        lema_soma_ponderada_nao_negativa(d, m);
    } else {
        lema_soma_ponderada_passo(d, m, i);
        lema_soma_ponderada_prefixo(d, m, i + 1);
        lema_soma_ponderada_nao_negativa(d.take(i), m.take(i));
        vstd::arithmetic::mul::lemma_mul_nonnegative(d[i] as int, m[i] as int);
    }
}

/// A weighted sum of non-negative terms is non-negative.
pub proof fn lema_soma_ponderada_nao_negativa(d: Seq<u32>, m: Seq<u32>)
    requires
        d.len() == m.len(),
    ensures
        soma_ponderada(d, m) >= 0,
    decreases d.len(),
{
    if d.len() > 0 {
        lema_soma_ponderada_nao_negativa(d.drop_last(), m.drop_last());
        vstd::arithmetic::mul::lemma_mul_nonnegative(d.last() as int, m.last() as int);
    }
}

/// With digits at most 9 and weights at most 15 — true of every weight table
/// in this crate — the weighted sum is bounded by 135 per position, so the
/// sums of all the document formats fit comfortably in a `u32`.
pub proof fn lema_soma_ponderada_limite(d: Seq<u32>, m: Seq<u32>)
    requires
        d.len() == m.len(),
        forall|i: int| 0 <= i < d.len() ==> d[i] <= 9,
        forall|i: int| 0 <= i < m.len() ==> m[i] <= 15,
    ensures
        soma_ponderada(d, m) <= 135 * d.len(),
    decreases d.len(),
{
    if d.len() > 0 {
        lema_soma_ponderada_limite(d.drop_last(), m.drop_last());
        vstd::arithmetic::mul::lemma_mul_upper_bound(d.last() as int, 9, m.last() as int, 15);
    }
}

/// Weighted sum of `digitos` against `multiplicadores`, computed in `u32`
/// arithmetic.  The caller must know the mathematical sum fits.
fn soma_produtos(digitos: &Vec<u32>, multiplicadores: &Vec<u32>) -> (soma: u32)
    requires
        digitos@.len() == multiplicadores@.len(),
        soma_ponderada(digitos@, multiplicadores@) <= u32::MAX,
    ensures
        soma == soma_ponderada(digitos@, multiplicadores@),
{
    let mut soma: u32 = 0;
    let mut i: usize = 0;
    while i < digitos.len()
        invariant
            i <= digitos@.len(),
            digitos@.len() == multiplicadores@.len(),
            soma_ponderada(digitos@, multiplicadores@) <= u32::MAX,
            soma == soma_ponderada(digitos@.take(i as int), multiplicadores@.take(i as int)),
        decreases digitos@.len() - i,
    {
        proof {
            lema_soma_ponderada_passo(digitos@, multiplicadores@, i as int);
            lema_soma_ponderada_prefixo(digitos@, multiplicadores@, i + 1);
        }
        soma = soma + digitos[i] * multiplicadores[i];
        i = i + 1;
    }
    proof {
        assert(digitos@.take(digitos@.len() as int) =~= digitos@);
        assert(multiplicadores@.take(multiplicadores@.len() as int) =~= multiplicadores@);
    }
    soma
}

/// The generic checksum engine: multiply each digit by its positional weight,
/// sum the products and hand the sum to the finishing transform.  Mismatched
/// lengths are a broken internal invariant, ruled out by the precondition
/// rather than reported as an invalid document.  The result is exactly the
/// transform applied to the weighted sum: instantiating `funcao_modulo` with
/// the identity gives the raw sum itself.
pub fn calc_digito<F: Fn(u32) -> u32>(
    digitos: Vec<u32>,
    multiplicadores: Vec<u32>,
    funcao_modulo: F,
) -> (r: u32)
    requires
        digitos@.len() == multiplicadores@.len(),
        soma_ponderada(digitos@, multiplicadores@) <= u32::MAX,
        call_requires(funcao_modulo, ((soma_ponderada(digitos@, multiplicadores@) as u32),)),
    ensures
        call_ensures(funcao_modulo, ((soma_ponderada(digitos@, multiplicadores@) as u32),), r),
{
    let soma = soma_produtos(&digitos, &multiplicadores);
    funcao_modulo(soma)
}

/// The checksum engine with the finishing transform fixed to plain modulo 11.
/// Several formats share exactly this shape; it is not a separate algorithm.
pub fn calc_digito_mod11(digitos: Vec<u32>, multiplicadores: Vec<u32>) -> (r: u32)
    requires
        digitos@.len() == multiplicadores@.len(),
        soma_ponderada(digitos@, multiplicadores@) <= u32::MAX,
    ensures
        r == espec_mod_11(soma_ponderada(digitos@, multiplicadores@)),
{
    let soma = soma_produtos(&digitos, &multiplicadores);
    mod_11(soma) as u32
}

/// Whether `c` is an ASCII decimal digit.
pub open spec fn eh_digito(c: char) -> bool {
    48 <= c as u32 && c as u32 <= 57
}

/// Numeric value of an ASCII decimal digit.
pub open spec fn valor_digito(c: char) -> u32 {
    (c as u32 - 48) as u32
}

/// The first `n` ASCII decimal digits of `s`, scanning left to right and
/// discarding every other character.
pub open spec fn extrai_digitos(s: Seq<char>, n: nat) -> Seq<u32>
    decreases s.len(),
{
    if n == 0 || s.len() == 0 {
        Seq::empty()
    } else if eh_digito(s[0]) {
        seq![valor_digito(s[0])] + extrai_digitos(s.drop_first(), (n - 1) as nat)
    } else {
        extrai_digitos(s.drop_first(), n)
    }
}

/// Every ASCII decimal digit of `s`, in order, with no cap on the count.
pub open spec fn todos_digitos(s: Seq<char>) -> Seq<u32>
    decreases s.len(),
{
    if s.len() == 0 {
        Seq::empty()
    } else if eh_digito(s[0]) {
        seq![valor_digito(s[0])] + todos_digitos(s.drop_first())
    } else {
        todos_digitos(s.drop_first())
    }
}

/// Extraction yields at most `n` digits, each of them between 0 and 9.
pub proof fn lema_extrai_digitos_formato(s: Seq<char>, n: nat)
    ensures
        extrai_digitos(s, n).len() <= n,
        forall|i: int|
            0 <= i < extrai_digitos(s, n).len() ==> #[trigger] extrai_digitos(s, n)[i] <= 9,
    decreases s.len(),
{
    if n == 0 || s.len() == 0 {
    } else if eh_digito(s[0]) {
        lema_extrai_digitos_formato(s.drop_first(), (n - 1) as nat);
    } else {
        lema_extrai_digitos_formato(s.drop_first(), n);
    }
}

/// Digit extraction is prefix-stable: raising the budget from `n` to `n + 1`
/// only ever appends to the result, so the extraction with budget `n` is a
/// prefix of the extraction with budget `n + 1`.
pub proof fn lema_extrai_digitos_prefixo(s: Seq<char>, n: nat)
    ensures
        extrai_digitos(s, n).len() <= extrai_digitos(s, n + 1).len(),
        extrai_digitos(s, n) == extrai_digitos(s, n + 1).take(extrai_digitos(s, n).len() as int),
    decreases s.len(),
{
    if n == 0 || s.len() == 0 {
        assert(extrai_digitos(s, n) =~= extrai_digitos(s, n + 1).take(
            extrai_digitos(s, n).len() as int,
        ));
    } else if eh_digito(s[0]) {
        lema_extrai_digitos_prefixo(s.drop_first(), (n - 1) as nat);
        let a = extrai_digitos(s.drop_first(), (n - 1) as nat);
        let b = extrai_digitos(s.drop_first(), n);
        let v = seq![valor_digito(s[0])];
        assert((v + b).take(a.len() as int + 1) =~= v + b.take(a.len() as int));
        assert(extrai_digitos(s, n) =~= extrai_digitos(s, n + 1).take(
            extrai_digitos(s, n).len() as int,
        ));
    } else {
        lema_extrai_digitos_prefixo(s.drop_first(), n);
    }
}

/// A budget at least as large as the number of digits present extracts them
/// all.
pub proof fn lema_extrai_digitos_saturado(s: Seq<char>, n: nat)
    requires
        n >= todos_digitos(s).len(),
    ensures
        extrai_digitos(s, n) == todos_digitos(s),
    decreases s.len(),
{
    if s.len() == 0 {
    } else if eh_digito(s[0]) {
        lema_extrai_digitos_saturado(s.drop_first(), (n - 1) as nat);
    } else {
        lema_extrai_digitos_saturado(s.drop_first(), n);
    }
}

/// A string holds no more digits than characters.
pub proof fn lema_todos_digitos_comprimento(s: Seq<char>)
    ensures
        todos_digitos(s).len() <= s.len(),
    decreases s.len(),
{
    if s.len() > 0 {
        lema_todos_digitos_comprimento(s.drop_first());
    }
}

/// The UTF-8 encoding of a string is at least as long as its character
/// sequence, since every scalar takes at least one byte.
pub proof fn lema_utf8_comprimento(s: Seq<char>)
    ensures
        vstd::utf8::encode_utf8(s).len() >= s.len(),
    decreases s.len(),
{
    if s.len() > 0 {
        lema_utf8_comprimento(s.drop_first());
        assert(vstd::utf8::encode_scalar(s[0] as u32).len() >= 1);
    }
}

/// Pulls the first `n` ASCII decimal digits out of `doc`, left to right,
/// discarding punctuation, letters and spaces.  Fewer than `n` digits simply
/// yield a shorter sequence; a string without digits yields an empty one.
pub fn somente_digitos(doc: &str, n: usize) -> (r: Vec<u32>)
    ensures
        r@ == extrai_digitos(doc@, n as nat),
        r@.len() <= n,
        forall|i: int| 0 <= i < r@.len() ==> #[trigger] r@[i] <= 9,
{
    let mut digitos: Vec<u32> = Vec::new();
    let mut it = doc.chars();
    proof {
        assert(digitos@ + extrai_digitos(it.remaining(), n as nat) =~= extrai_digitos(
            doc@,
            n as nat,
        ));
    }
    loop
        invariant
            digitos@.len() <= n,
            it.decrease() is Some,
            extrai_digitos(doc@, n as nat) == digitos@ + extrai_digitos(
                it.remaining(),
                (n - digitos@.len()) as nat,
            ),
        ensures
            digitos@ == extrai_digitos(doc@, n as nat),
        decreases it.decrease()->0,
    {
        if digitos.len() == n {
            proof {
                assert(digitos@ + extrai_digitos(it.remaining(), 0) =~= digitos@);
            }
            break;
        }
        let ghost resto_antes = it.remaining();
        let ghost orcamento = (n - digitos@.len()) as nat;
        match it.next() {
            None => {
                proof {
                    assert(digitos@ + extrai_digitos(resto_antes, orcamento) =~= digitos@);
                }
                break;
            },
            Some(c) => {
                proof {
                    assert(resto_antes.len() > 0);
                    assert(c == resto_antes[0]);
                    assert(it.remaining() == resto_antes.drop_first());
                }
                let v: u32 = c as u32;
                if v >= 48 && v <= 57 {
                    digitos.push(v - 48);
                    proof {
                        assert(extrai_digitos(resto_antes, orcamento) =~= seq![valor_digito(c)]
                            + extrai_digitos(resto_antes.drop_first(), (orcamento - 1) as nat));
                        assert(digitos@ + extrai_digitos(
                            it.remaining(),
                            (n - digitos@.len()) as nat,
                        ) =~= extrai_digitos(doc@, n as nat));
                    }
                } else {
                    proof {
                        assert(extrai_digitos(resto_antes, orcamento) == extrai_digitos(
                            resto_antes.drop_first(),
                            orcamento,
                        ));
                    }
                }
            },
        }
    }
    proof {
        lema_extrai_digitos_formato(doc@, n as nat);
    }
    digitos
}

/// The shape a digit sequence has after left padding: if it already reaches
/// length `n` it is unchanged, otherwise zeros are prefixed up to length `n`.
pub open spec fn espec_completa_esquerda(s: Seq<u32>, n: nat) -> Seq<u32> {
    if s.len() >= n {
        s
    } else {
        Seq::new((n - s.len()) as nat, |i: int| 0u32) + s
    }
}

/// Pads `numero` on the left with zeros up to length `n`; a sequence already
/// long enough is left untouched.
pub fn completa_esquerda(numero: &mut Vec<u32>, n: usize)
    ensures
        final(numero)@ == espec_completa_esquerda(old(numero)@, n as nat),
{
    if numero.len() < n {
        let faltam = n - numero.len();
        let mut i: usize = 0;
        while i < faltam
            invariant
                i <= faltam,
                faltam == n - old(numero)@.len(),
                old(numero)@.len() < n,
                numero@ == Seq::new(i as nat, |j: int| 0u32) + old(numero)@,
            decreases faltam - i,
        {
            numero.insert(0, 0);
            i = i + 1;
            proof {
                assert(numero@ =~= Seq::new(i as nat, |j: int| 0u32) + old(numero)@);
            }
        }
        proof {
            assert(numero@ =~= espec_completa_esquerda(old(numero)@, n as nat));
        }
    }
}

/// Left padding is idempotent: a sequence already of length `n` (or longer)
/// is left untouched, and padding to length `n` twice is the same as padding
/// once.
pub proof fn lema_completa_esquerda_idempotente(s: Seq<u32>, n: nat)
    ensures
        s.len() >= n ==> espec_completa_esquerda(s, n) == s,
        espec_completa_esquerda(espec_completa_esquerda(s, n), n) == espec_completa_esquerda(s, n),
{
}

} // verus!
