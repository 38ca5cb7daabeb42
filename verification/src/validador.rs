//! One validator per document format.  Each format is a fixed configuration
//! of the shared primitives: a weight table, a body/check-digit split and a
//! finishing transform, stated precisely by a spec predicate over the
//! character sequence of the candidate text.
//!
//! A candidate that does not yield enough digits for its format is an
//! ordinary validation failure, never an abort.

use vstd::prelude::*;

use crate::funcoes::calc_digito;
use crate::funcoes::calc_digito_mod11;
use crate::funcoes::completa_esquerda;
use crate::funcoes::espec_completa_esquerda;
use crate::funcoes::espec_mod_11;
use crate::funcoes::espec_onze_menos_mod11;
use crate::funcoes::extrai_digitos;
use crate::funcoes::lema_extrai_digitos_saturado;
use crate::funcoes::lema_soma_ponderada_limite;
use crate::funcoes::lema_soma_ponderada_nao_negativa;
use crate::funcoes::lema_todos_digitos_comprimento;
use crate::funcoes::lema_utf8_comprimento;
use crate::funcoes::todos_digitos;
use crate::funcoes::mod_11;
use crate::funcoes::onze_menos_mod11;
use crate::funcoes::soma_ponderada;
use crate::funcoes::somente_digitos;
use crate::types::CartaoCredito;
use crate::types::Cnh;
use crate::types::Cnpj;
use crate::types::Cns;
use crate::types::CodigoBarrasGs1;
use crate::types::Cpf;
use crate::types::Pis;
use crate::types::Renavam;
use crate::types::Rg;
use crate::types::TipoCns;
use crate::types::TituloEleitor;
use vstd::slice::slice_subrange;
use vstd::slice::slice_to_vec;

verus! {

/// The uniform capability every document validator implements.  The two spec
/// functions pin down what the two executable methods return: `is_valid` is
/// the stateless predicate on raw text, and `validar` judges the text held by
/// the candidate value.
pub trait Validador {
    /// What the stateless predicate accepts.
    spec fn espec_is_valid(texto: Seq<char>) -> bool;

    /// What the instance method accepts.
    spec fn espec_validar(&self) -> bool;

    /// Stateless check of a candidate text, reusable without constructing the
    /// wrapping type.
    fn is_valid(numero: &str) -> (r: bool)
        ensures
            r == Self::espec_is_valid(numero@),
    ;

    /// Check of the text held by this candidate.
    fn validar(&self) -> (r: bool)
        ensures
            r == self.espec_validar(),
    ;
}

/// The "times ten" modulo-11 finishing transform shared by CPF and CNPJ: the
/// raw weighted sum is multiplied by ten before the remainder is taken.  This
/// is a deliberate quirk of those two formats, reproduced exactly.
fn decima(x: u32) -> (r: u32)
    requires
        10 * x <= u32::MAX,
    ensures
        r == espec_mod_11(10 * x),
{
    mod_11(10 * x) as u32
}

/// The CPF weight table, applied to both nine-digit windows.
pub open spec fn pesos_cpf() -> Seq<u32> {
    seq![10u32, 9u32, 8u32, 7u32, 6u32, 5u32, 4u32, 3u32, 2u32]
}

fn pesos_cpf_vec() -> (v: Vec<u32>)
    ensures
        v@ == pesos_cpf(),
        forall|i: int| 0 <= i < v@.len() ==> #[trigger] v@[i] <= 15,
{
    let v: Vec<u32> = vec![10, 9, 8, 7, 6, 5, 4, 3, 2];
    proof {
        assert(v@ =~= pesos_cpf());
    }
    v
}

/// A valid CPF yields eleven digits; the tenth is the "times ten" modulo-11
/// checksum of digits 0..9, and the eleventh the same checksum of the window
/// shifted one position to the right, digits 1..10.
pub open spec fn espec_cpf_valido(s: Seq<char>) -> bool {
    let d = extrai_digitos(s, 11);
    &&& d.len() == 11
    &&& d[9] == espec_mod_11(10 * soma_ponderada(d.subrange(0, 9), pesos_cpf()))
    &&& d[10] == espec_mod_11(10 * soma_ponderada(d.subrange(1, 10), pesos_cpf()))
}

impl<'data> Validador for Cpf<'data> {
    open spec fn espec_is_valid(texto: Seq<char>) -> bool {
        espec_cpf_valido(texto)
    }

    open spec fn espec_validar(&self) -> bool {
        espec_cpf_valido(self.0@)
    }

    fn is_valid(numero: &str) -> (r: bool) {
        let digitos = somente_digitos(numero, 11);
        if digitos.len() < 11 {
            return false;
        }
        let part1 = slice_to_vec(slice_subrange(digitos.as_slice(), 0, 9));
        let dv1 = digitos[9];
        let part2 = slice_to_vec(slice_subrange(digitos.as_slice(), 1, 10));
        let dv2 = digitos[10];
        let multiplicadores = pesos_cpf_vec();
        proof {
            lema_soma_ponderada_limite(part1@, multiplicadores@);
            lema_soma_ponderada_limite(part2@, multiplicadores@);
            lema_soma_ponderada_nao_negativa(part1@, multiplicadores@);
            lema_soma_ponderada_nao_negativa(part2@, multiplicadores@);
        }
        let v1 = calc_digito(part1, multiplicadores, decima);
        let multiplicadores = pesos_cpf_vec();
        let v2 = calc_digito(part2, multiplicadores, decima);
        v1 == dv1 && v2 == dv2
    }

    fn validar(&self) -> (r: bool) {
        Self::is_valid(self.0)
    }
}

/// The CNPJ weight table for the first check digit.
pub open spec fn pesos_cnpj1() -> Seq<u32> {
    seq![5u32, 4u32, 3u32, 2u32, 9u32, 8u32, 7u32, 6u32, 5u32, 4u32, 3u32, 2u32]
}

/// The CNPJ weight table for the second check digit.
pub open spec fn pesos_cnpj2() -> Seq<u32> {
    seq![6u32, 5u32, 4u32, 3u32, 2u32, 9u32, 8u32, 7u32, 6u32, 5u32, 4u32, 3u32, 2u32]
}

fn pesos_cnpj1_vec() -> (v: Vec<u32>)
    ensures
        v@ == pesos_cnpj1(),
        forall|i: int| 0 <= i < v@.len() ==> #[trigger] v@[i] <= 15,
{
    let v: Vec<u32> = vec![5, 4, 3, 2, 9, 8, 7, 6, 5, 4, 3, 2];
    proof {
        assert(v@ =~= pesos_cnpj1());
    }
    v
}

fn pesos_cnpj2_vec() -> (v: Vec<u32>)
    ensures
        v@ == pesos_cnpj2(),
        forall|i: int| 0 <= i < v@.len() ==> #[trigger] v@[i] <= 15,
{
    let v: Vec<u32> = vec![6, 5, 4, 3, 2, 9, 8, 7, 6, 5, 4, 3, 2];
    proof {
        assert(v@ =~= pesos_cnpj2());
    }
    v
}

/// A valid CNPJ yields fourteen digits; the thirteenth is the "times ten"
/// modulo-11 checksum of digits 0..12 and the fourteenth the same checksum of
/// digits 0..13, each window against its own weight table.
pub open spec fn espec_cnpj_valido(s: Seq<char>) -> bool {
    let d = extrai_digitos(s, 14);
    &&& d.len() == 14
    &&& d[12] == espec_mod_11(10 * soma_ponderada(d.subrange(0, 12), pesos_cnpj1()))
    &&& d[13] == espec_mod_11(10 * soma_ponderada(d.subrange(0, 13), pesos_cnpj2()))
}

impl<'data> Validador for Cnpj<'data> {
    open spec fn espec_is_valid(texto: Seq<char>) -> bool {
        espec_cnpj_valido(texto)
    }

    open spec fn espec_validar(&self) -> bool {
        espec_cnpj_valido(self.0@)
    }

    fn is_valid(numero: &str) -> (r: bool) {
        let digitos = somente_digitos(numero, 14);
        if digitos.len() < 14 {
            return false;
        }
        let part1 = slice_to_vec(slice_subrange(digitos.as_slice(), 0, 12));
        let dv1 = digitos[12];
        let part2 = slice_to_vec(slice_subrange(digitos.as_slice(), 0, 13));
        let dv2 = digitos[13];
        let multiplicadores1 = pesos_cnpj1_vec();
        let multiplicadores2 = pesos_cnpj2_vec();
        proof {
            lema_soma_ponderada_limite(part1@, multiplicadores1@);
            lema_soma_ponderada_limite(part2@, multiplicadores2@);
            lema_soma_ponderada_nao_negativa(part1@, multiplicadores1@);
            lema_soma_ponderada_nao_negativa(part2@, multiplicadores2@);
        }
        let v1 = calc_digito(part1, multiplicadores1, decima);
        let v2 = calc_digito(part2, multiplicadores2, decima);
        v1 == dv1 && v2 == dv2
    }

    fn validar(&self) -> (r: bool) {
        Self::is_valid(self.0)
    }
}

/// The RG weight table, ascending 2 to 9.
pub open spec fn pesos_rg() -> Seq<u32> {
    seq![2u32, 3u32, 4u32, 5u32, 6u32, 7u32, 8u32, 9u32]
}

fn pesos_rg_vec() -> (v: Vec<u32>)
    ensures
        v@ == pesos_rg(),
        forall|i: int| 0 <= i < v@.len() ==> #[trigger] v@[i] <= 15,
{
    let v: Vec<u32> = vec![2, 3, 4, 5, 6, 7, 8, 9];
    proof {
        assert(v@ =~= pesos_rg());
    }
    v
}

/// A valid RG yields nine digits; the ninth is the "11 minus" modulo-11
/// checksum of the first eight.
pub open spec fn espec_rg_valido(s: Seq<char>) -> bool {
    let d = extrai_digitos(s, 9);
    &&& d.len() == 9
    &&& d[8] == espec_onze_menos_mod11(soma_ponderada(d.subrange(0, 8), pesos_rg()))
}

impl<'data> Validador for Rg<'data> {
    open spec fn espec_is_valid(texto: Seq<char>) -> bool {
        espec_rg_valido(texto)
    }

    open spec fn espec_validar(&self) -> bool {
        espec_rg_valido(self.0@)
    }

    fn is_valid(numero: &str) -> (r: bool) {
        let digitos = somente_digitos(numero, 9);
        if digitos.len() < 9 {
            return false;
        }
        let part1 = slice_to_vec(slice_subrange(digitos.as_slice(), 0, 8));
        let dv1 = digitos[8];
        let multiplicadores1 = pesos_rg_vec();
        proof {
            lema_soma_ponderada_limite(part1@, multiplicadores1@);
            lema_soma_ponderada_nao_negativa(part1@, multiplicadores1@);
        }
        let v1 = calc_digito(part1, multiplicadores1, onze_menos_mod11);
        v1 == dv1
    }

    fn validar(&self) -> (r: bool) {
        Self::is_valid(self.0)
    }
}

/// The weight table shared by PIS and RENAVAM.
pub open spec fn pesos_pis() -> Seq<u32> {
    seq![3u32, 2u32, 9u32, 8u32, 7u32, 6u32, 5u32, 4u32, 3u32, 2u32]
}

fn pesos_pis_vec() -> (v: Vec<u32>)
    ensures
        v@ == pesos_pis(),
        forall|i: int| 0 <= i < v@.len() ==> #[trigger] v@[i] <= 15,
{
    let v: Vec<u32> = vec![3, 2, 9, 8, 7, 6, 5, 4, 3, 2];
    proof {
        assert(v@ =~= pesos_pis());
    }
    v
}

/// A valid PIS yields eleven digits; the eleventh is the "11 minus"
/// modulo-11 checksum of the first ten.
pub open spec fn espec_pis_valido(s: Seq<char>) -> bool {
    let d = extrai_digitos(s, 11);
    &&& d.len() == 11
    &&& d[10] == espec_onze_menos_mod11(soma_ponderada(d.subrange(0, 10), pesos_pis()))
}

impl<'data> Validador for Pis<'data> {
    open spec fn espec_is_valid(texto: Seq<char>) -> bool {
        espec_pis_valido(texto)
    }

    open spec fn espec_validar(&self) -> bool {
        espec_pis_valido(self.0@)
    }

    fn is_valid(numero: &str) -> (r: bool) {
        let digitos = somente_digitos(numero, 11);
        if digitos.len() < 11 {
            return false;
        }
        let part1 = slice_to_vec(slice_subrange(digitos.as_slice(), 0, 10));
        let dv1 = digitos[10];
        let multiplicadores1 = pesos_pis_vec();
        proof {
            lema_soma_ponderada_limite(part1@, multiplicadores1@);
            lema_soma_ponderada_nao_negativa(part1@, multiplicadores1@);
        }
        let v1 = calc_digito(part1, multiplicadores1, onze_menos_mod11);
        v1 == dv1
    }

    fn validar(&self) -> (r: bool) {
        Self::is_valid(self.0)
    }
}

/// A valid RENAVAM is first left-padded with zeros to eleven digits; the
/// eleventh is then the "11 minus" modulo-11 checksum of the first ten,
/// against the same weight table PIS uses.
pub open spec fn espec_renavam_valido(s: Seq<char>) -> bool {
    let d = espec_completa_esquerda(extrai_digitos(s, 11), 11);
    d[10] == espec_onze_menos_mod11(soma_ponderada(d.subrange(0, 10), pesos_pis()))
}

impl<'data> Validador for Renavam<'data> {
    open spec fn espec_is_valid(texto: Seq<char>) -> bool {
        espec_renavam_valido(texto)
    }

    open spec fn espec_validar(&self) -> bool {
        espec_renavam_valido(self.0@)
    }

    fn is_valid(numero: &str) -> (r: bool) {
        let mut digitos = somente_digitos(numero, 11);
        completa_esquerda(&mut digitos, 11);
        let part1 = slice_to_vec(slice_subrange(digitos.as_slice(), 0, 10));
        let dv1 = digitos[10];
        let multiplicadores1 = pesos_pis_vec();
        proof {
            assert(forall|i: int| 0 <= i < part1@.len() ==> #[trigger] part1@[i] <= 9);
            lema_soma_ponderada_limite(part1@, multiplicadores1@);
            lema_soma_ponderada_nao_negativa(part1@, multiplicadores1@);
        }
        let v1 = calc_digito(part1, multiplicadores1, onze_menos_mod11);
        dv1 == v1
    }

    fn validar(&self) -> (r: bool) {
        Self::is_valid(self.0)
    }
}

/// The voter-registration weight table for the first check digit.
pub open spec fn pesos_titulo1() -> Seq<u32> {
    seq![2u32, 3u32, 4u32, 5u32, 6u32, 7u32, 8u32, 9u32]
}

/// The voter-registration weight table for the second check digit.
pub open spec fn pesos_titulo2() -> Seq<u32> {
    seq![7u32, 8u32, 9u32]
}

fn pesos_titulo1_vec() -> (v: Vec<u32>)
    ensures
        v@ == pesos_titulo1(),
        forall|i: int| 0 <= i < v@.len() ==> #[trigger] v@[i] <= 15,
{
    let v: Vec<u32> = vec![2, 3, 4, 5, 6, 7, 8, 9];
    proof {
        assert(v@ =~= pesos_titulo1());
    }
    v
}

fn pesos_titulo2_vec() -> (v: Vec<u32>)
    ensures
        v@ == pesos_titulo2(),
        forall|i: int| 0 <= i < v@.len() ==> #[trigger] v@[i] <= 15,
{
    let v: Vec<u32> = vec![7, 8, 9];
    proof {
        assert(v@ =~= pesos_titulo2());
    }
    v
}

/// A valid voter registration yields twelve digits.  The two check digits sit
/// at positions 10 and 11: the first is the plain modulo-11 checksum of
/// digits 0..8, the second of digits 8..11 — positions 8 and 9 are
/// sequence-number digits that the first window never reaches.
pub open spec fn espec_titulo_valido(s: Seq<char>) -> bool {
    let d = extrai_digitos(s, 12);
    &&& d.len() == 12
    &&& d[10] == espec_mod_11(soma_ponderada(d.subrange(0, 8), pesos_titulo1()))
    &&& d[11] == espec_mod_11(soma_ponderada(d.subrange(8, 11), pesos_titulo2()))
}

impl<'data> Validador for TituloEleitor<'data> {
    open spec fn espec_is_valid(texto: Seq<char>) -> bool {
        espec_titulo_valido(texto)
    }

    open spec fn espec_validar(&self) -> bool {
        espec_titulo_valido(self.0@)
    }

    fn is_valid(numero: &str) -> (r: bool) {
        let digitos = somente_digitos(numero, 12);
        if digitos.len() < 12 {
            return false;
        }
        let part1 = slice_to_vec(slice_subrange(digitos.as_slice(), 0, 8));
        let dv1 = digitos[10];
        let part2 = slice_to_vec(slice_subrange(digitos.as_slice(), 8, 11));
        let dv2 = digitos[11];
        let multiplicadores1 = pesos_titulo1_vec();
        let multiplicadores2 = pesos_titulo2_vec();
        proof {
            lema_soma_ponderada_limite(part1@, multiplicadores1@);
            lema_soma_ponderada_limite(part2@, multiplicadores2@);
            lema_soma_ponderada_nao_negativa(part1@, multiplicadores1@);
            lema_soma_ponderada_nao_negativa(part2@, multiplicadores2@);
        }
        let v1 = calc_digito_mod11(part1, multiplicadores1);
        let v2 = calc_digito_mod11(part2, multiplicadores2);
        v1 == dv1 && v2 == dv2
    }

    fn validar(&self) -> (r: bool) {
        Self::is_valid(self.0)
    }
}

/// The identity finishing transform, for validators that need the raw
/// weighted sum before applying their own corrections.
fn identidade(x: u32) -> (r: u32)
    ensures
        r == x,
{
    x
}

/// The GS1 finishing transform: the distance from the sum up to the next
/// multiple of ten.
pub open spec fn espec_complemento_dez(x: int) -> int {
    (x / 10 + 1) * 10 - x
}

fn complemento_dez(x: u32) -> (r: u32)
    requires
        x + 10 <= u32::MAX,
    ensures
        r == espec_complemento_dez(x as int),
{
    (x / 10 + 1) * 10 - x
}

/// The GS1 weight table: 3 and 1 alternating over seventeen positions.
pub open spec fn pesos_gs1() -> Seq<u32> {
    seq![
        3u32,
        1u32,
        3u32,
        1u32,
        3u32,
        1u32,
        3u32,
        1u32,
        3u32,
        1u32,
        3u32,
        1u32,
        3u32,
        1u32,
        3u32,
        1u32,
        3u32,
    ]
}

fn pesos_gs1_vec() -> (v: Vec<u32>)
    ensures
        v@ == pesos_gs1(),
        forall|i: int| 0 <= i < v@.len() ==> #[trigger] v@[i] <= 15,
{
    let v: Vec<u32> = vec![3, 1, 3, 1, 3, 1, 3, 1, 3, 1, 3, 1, 3, 1, 3, 1, 3];
    proof {
        assert(v@ =~= pesos_gs1());
    }
    v
}

/// A GS1 barcode is first left-padded with zeros to the canonical eighteen
/// slots, so the commonly issued 8-, 12-, 13- and 14-digit codes validate
/// correctly; the last slot is then the ten's-complement checksum of the
/// first seventeen.
pub open spec fn espec_gs1_valido(s: Seq<char>) -> bool {
    let d = espec_completa_esquerda(extrai_digitos(s, 18), 18);
    d[17] == espec_complemento_dez(soma_ponderada(d.subrange(0, 17), pesos_gs1()))
}

impl<'data> Validador for CodigoBarrasGs1<'data> {
    open spec fn espec_is_valid(texto: Seq<char>) -> bool {
        espec_gs1_valido(texto)
    }

    open spec fn espec_validar(&self) -> bool {
        espec_gs1_valido(self.0@)
    }

    fn is_valid(numero: &str) -> (r: bool) {
        let mut digitos = somente_digitos(numero, 18);
        completa_esquerda(&mut digitos, 18);
        let part1 = slice_to_vec(slice_subrange(digitos.as_slice(), 0, 17));
        let dv1 = digitos[17];
        let multiplicadores1 = pesos_gs1_vec();
        proof {
            assert(forall|i: int| 0 <= i < part1@.len() ==> #[trigger] part1@[i] <= 9);
            lema_soma_ponderada_limite(part1@, multiplicadores1@);
            lema_soma_ponderada_nao_negativa(part1@, multiplicadores1@);
        }
        let v1 = calc_digito(part1, multiplicadores1, complemento_dez);
        v1 == dv1
    }

    fn validar(&self) -> (r: bool) {
        Self::is_valid(self.0)
    }
}

/// The driver-license weight table for the first pass, descending 9 to 1.
pub open spec fn pesos_cnh1() -> Seq<u32> {
    seq![9u32, 8u32, 7u32, 6u32, 5u32, 4u32, 3u32, 2u32, 1u32]
}

/// The driver-license weight table for the second pass, ascending 1 to 9.
pub open spec fn pesos_cnh2() -> Seq<u32> {
    seq![1u32, 2u32, 3u32, 4u32, 5u32, 6u32, 7u32, 8u32, 9u32]
}

fn pesos_cnh1_vec() -> (v: Vec<u32>)
    ensures
        v@ == pesos_cnh1(),
        forall|i: int| 0 <= i < v@.len() ==> #[trigger] v@[i] <= 15,
{
    let v: Vec<u32> = vec![9, 8, 7, 6, 5, 4, 3, 2, 1];
    proof {
        assert(v@ =~= pesos_cnh1());
    }
    v
}

fn pesos_cnh2_vec() -> (v: Vec<u32>)
    ensures
        v@ == pesos_cnh2(),
        forall|i: int| 0 <= i < v@.len() ==> #[trigger] v@[i] <= 15,
{
    let v: Vec<u32> = vec![1, 2, 3, 4, 5, 6, 7, 8, 9];
    proof {
        assert(v@ =~= pesos_cnh2());
    }
    v
}

/// The driver-license two-pass algorithm over eleven digits.  The first pass
/// takes the raw weighted sum of digits 0..9 against descending weights; a
/// raw remainder of 10 carries a correction of 2 into the second pass, and
/// the first check digit is that sum under plain modulo 11.  The second pass
/// sums the *same* nine digits against ascending weights, reduces modulo 11
/// and subtracts the correction — wrapping by adding 11 first when the
/// remainder is smaller than the correction — and any result above 9 becomes
/// 0.  The two computed digits must match positions 9 and 10.
pub open spec fn espec_cnh_valido(s: Seq<char>) -> bool {
    let d = extrai_digitos(s, 11);
    let soma1 = soma_ponderada(d.subrange(0, 9), pesos_cnh1());
    let delta: int = if soma1 % 11 == 10 {
        2
    } else {
        0
    };
    let soma2 = soma_ponderada(d.subrange(0, 9), pesos_cnh2());
    let reduzido = soma2 % 11;
    let corrigido = if reduzido >= delta {
        reduzido - delta
    } else {
        11 + reduzido - delta
    };
    &&& d.len() == 11
    &&& d[9] == espec_mod_11(soma1)
    &&& d[10] == (if corrigido > 9 {
        0int
    } else {
        corrigido
    })
}

impl<'data> Validador for Cnh<'data> {
    open spec fn espec_is_valid(texto: Seq<char>) -> bool {
        espec_cnh_valido(texto)
    }

    open spec fn espec_validar(&self) -> bool {
        espec_cnh_valido(self.0@)
    }

    fn is_valid(numero: &str) -> (r: bool) {
        let digitos = somente_digitos(numero, 11);
        if digitos.len() < 11 {
            return false;
        }
        let part1 = slice_to_vec(slice_subrange(digitos.as_slice(), 0, 9));
        let dv1 = digitos[9];
        let part2 = slice_to_vec(slice_subrange(digitos.as_slice(), 0, 9));
        let dv2 = digitos[10];
        let multiplicadores1 = pesos_cnh1_vec();
        let multiplicadores2 = pesos_cnh2_vec();
        proof {
            lema_soma_ponderada_limite(part1@, multiplicadores1@);
            lema_soma_ponderada_limite(part2@, multiplicadores2@);
            lema_soma_ponderada_nao_negativa(part1@, multiplicadores1@);
            lema_soma_ponderada_nao_negativa(part2@, multiplicadores2@);
        }
        let soma1 = calc_digito(part1, multiplicadores1, identidade);
        let delta: u32 = if soma1 % 11 == 10 {
            2
        } else {
            0
        };
        let verifica1 = mod_11(soma1) as u32;

        let soma2 = calc_digito(part2, multiplicadores2, identidade);
        let reduzido: u32 = soma2 % 11;
        let corrigido: u32 = if reduzido >= delta {
            reduzido - delta
        } else {
            11 + reduzido - delta
        };
        let verifica2: u32 = if corrigido > 9 {
            0
        } else {
            corrigido
        };

        verifica1 == dv1 && verifica2 == dv2
    }

    fn validar(&self) -> (r: bool) {
        Self::is_valid(self.0)
    }
}

/// The health-card weight table for definitive numbers, descending 15 to 5
/// over the first eleven digits.
pub open spec fn pesos_cns_def() -> Seq<u32> {
    seq![15u32, 14u32, 13u32, 12u32, 11u32, 10u32, 9u32, 8u32, 7u32, 6u32, 5u32]
}

/// The health-card weight table for provisional numbers, descending 15 to 1
/// over all fifteen digits.
pub open spec fn pesos_cns_prov() -> Seq<u32> {
    seq![
        15u32,
        14u32,
        13u32,
        12u32,
        11u32,
        10u32,
        9u32,
        8u32,
        7u32,
        6u32,
        5u32,
        4u32,
        3u32,
        2u32,
        1u32,
    ]
}

fn pesos_cns_def_vec() -> (v: Vec<u32>)
    ensures
        v@ == pesos_cns_def(),
        forall|i: int| 0 <= i < v@.len() ==> #[trigger] v@[i] <= 15,
{
    let v: Vec<u32> = vec![15, 14, 13, 12, 11, 10, 9, 8, 7, 6, 5];
    proof {
        assert(v@ =~= pesos_cns_def());
    }
    v
}

fn pesos_cns_prov_vec() -> (v: Vec<u32>)
    ensures
        v@ == pesos_cns_prov(),
        forall|i: int| 0 <= i < v@.len() ==> #[trigger] v@[i] <= 15,
{
    let v: Vec<u32> = vec![15, 14, 13, 12, 11, 10, 9, 8, 7, 6, 5, 4, 3, 2, 1];
    proof {
        assert(v@ =~= pesos_cns_prov());
    }
    v
}

/// A definitive health-card number (leading digit 1 or 2) yields fifteen
/// digits.  The weighted sum of the first eleven is reduced as
/// `11 - (sum % 11)`: a result of 11 asks for the suffix `0 0 0 0`; a result
/// of 10 adds 2 to the sum, recomputes, and asks for `0 0 1` followed by the
/// recomputed value; anything else asks for `0 0 0` followed by the value.
pub open spec fn espec_cns_definitivo(s: Seq<char>) -> bool {
    let d = extrai_digitos(s, 15);
    let soma = soma_ponderada(d.subrange(0, 11), pesos_cns_def());
    let calculo = 11 - soma % 11;
    &&& d.len() == 15
    &&& d[11] == 0
    &&& d[12] == 0
    &&& (if calculo == 11 {
        d[13] == 0 && d[14] == 0
    } else if calculo == 10 {
        d[13] == 1 && d[14] == 11 - (soma + 2) % 11
    } else {
        d[13] == 0 && d[14] == calculo
    })
}

/// A provisional health-card number (leading digit 7, 8 or 9) follows the
/// PIS shape over all fifteen slots: left-padded with zeros to fifteen
/// digits, the weighted sum must itself be divisible by 11.
pub open spec fn espec_cns_provisorio(s: Seq<char>) -> bool {
    let d = espec_completa_esquerda(extrai_digitos(s, 15), 15);
    soma_ponderada(d, pesos_cns_prov()) % 11 == 0
}

/// A health card branches on its first extracted digit: 1 and 2 are
/// definitive numbers, 7, 8 and 9 provisional ones, and anything else —
/// including a text without digits — is invalid unconditionally.
pub open spec fn espec_cns_valido(s: Seq<char>) -> bool {
    let p = extrai_digitos(s, 1);
    if p.len() == 0 {
        false
    } else if p[0] == 1 || p[0] == 2 {
        espec_cns_definitivo(s)
    } else if p[0] == 7 || p[0] == 8 || p[0] == 9 {
        espec_cns_provisorio(s)
    } else {
        false
    }
}

/// The definitive branch of the health-card check.
fn cns_definitivo(numero: &str) -> (r: bool)
    ensures
        r == espec_cns_definitivo(numero@),
{
    let digitos = somente_digitos(numero, 15);
    if digitos.len() < 15 {
        return false;
    }
    let part1 = slice_to_vec(slice_subrange(digitos.as_slice(), 0, 11));
    let multiplicadores1 = pesos_cns_def_vec();
    proof {
        lema_soma_ponderada_limite(part1@, multiplicadores1@);
        lema_soma_ponderada_nao_negativa(part1@, multiplicadores1@);
    }
    let soma = calc_digito(part1, multiplicadores1, identidade);
    let calculo: u32 = 11 - soma % 11;
    if digitos[11] != 0 || digitos[12] != 0 {
        return false;
    }
    if calculo == 11 {
        digitos[13] == 0 && digitos[14] == 0
    } else if calculo == 10 {
        let calculo2: u32 = 11 - (soma + 2) % 11;
        digitos[13] == 1 && digitos[14] == calculo2
    } else {
        digitos[13] == 0 && digitos[14] == calculo
    }
}

/// The provisional branch of the health-card check, the PIS shape over
/// fifteen slots.
fn cns_provisorio(numero: &str) -> (r: bool)
    ensures
        r == espec_cns_provisorio(numero@),
{
    let mut digitos = somente_digitos(numero, 15);
    completa_esquerda(&mut digitos, 15);
    let multiplicadores1 = pesos_cns_prov_vec();
    proof {
        assert(forall|i: int| 0 <= i < digitos@.len() ==> #[trigger] digitos@[i] <= 9);
        lema_soma_ponderada_limite(digitos@, multiplicadores1@);
        lema_soma_ponderada_nao_negativa(digitos@, multiplicadores1@);
    }
    let soma = calc_digito(digitos, multiplicadores1, identidade);
    soma % 11 == 0
}

impl<'data> Validador for Cns<'data> {
    open spec fn espec_is_valid(texto: Seq<char>) -> bool {
        espec_cns_valido(texto)
    }

    open spec fn espec_validar(&self) -> bool {
        espec_cns_valido(self.0@)
    }

    fn is_valid(numero: &str) -> (r: bool) {
        let primeiro_digito = somente_digitos(numero, 1);
        if primeiro_digito.len() == 0 {
            return false;
        }
        let p = primeiro_digito[0];
        if p == 1 || p == 2 {
            cns_definitivo(numero)
        } else if p == 7 || p == 8 || p == 9 {
            cns_provisorio(numero)
        } else {
            false
        }
    }

    fn validar(&self) -> (r: bool) {
        Self::is_valid(self.0)
    }
}

impl<'data> Validador for TipoCns<'data> {
    open spec fn espec_is_valid(texto: Seq<char>) -> bool {
        false
    }

    open spec fn espec_validar(&self) -> bool {
        match self {
            TipoCns::Cns(value) => espec_cns_valido(value.0@),
            TipoCns::Provisorio(value) => espec_pis_valido(value.0@),
        }
    }

    /// The union does not say which algorithm a bare text should follow, so
    /// its stateless predicate accepts nothing; validation goes through the
    /// variant held by `validar`.
    fn is_valid(_numero: &str) -> (r: bool) {
        false
    }

    fn validar(&self) -> (r: bool) {
        match self {
            TipoCns::Cns(value) => value.validar(),
            TipoCns::Provisorio(value) => value.validar(),
        }
    }
}

/// The Luhn contribution of one digit: taken as is on the odd positions
/// counted from the right, and on the even ones doubled with the two digits
/// of the doubling summed, written `d / 5 + (2 * d) % 10`.
pub open spec fn luhn_soma(d: Seq<u32>, posicao_impar: bool) -> int
    decreases d.len(),
{
    if d.len() == 0 {
        0
    } else {
        let contribuicao = if posicao_impar {
            d.last() as int
        } else {
            d.last() / 5 + (2 * d.last()) % 10
        };
        contribuicao + luhn_soma(d.drop_last(), !posicao_impar)
    }
}

/// A payment card is valid when its Luhn sum over every digit present — no
/// fixed length — is divisible by ten.
pub open spec fn espec_cartao_valido(s: Seq<char>) -> bool {
    luhn_soma(todos_digitos(s), true) % 10 == 0
}

impl<'data> Validador for CartaoCredito<'data> {
    open spec fn espec_is_valid(texto: Seq<char>) -> bool {
        espec_cartao_valido(texto)
    }

    open spec fn espec_validar(&self) -> bool {
        espec_cartao_valido(self.0@)
    }

    fn is_valid(numero: &str) -> (r: bool) {
        let orcamento = numero.as_bytes().len();
        let numbers = somente_digitos(numero, orcamento);
        proof {
            lema_todos_digitos_comprimento(numero@);
            lema_utf8_comprimento(numero@);
            lema_extrai_digitos_saturado(numero@, orcamento as nat);
            assert(numbers@ == todos_digitos(numero@));
        }
        let mut soma: u128 = 0;
        let mut impar: bool = true;
        let mut i: usize = numbers.len();
        proof {
            assert(numbers@.take(i as int) =~= numbers@);
        }
        while i > 0
            invariant
                i <= numbers@.len(),
                numbers@.len() <= usize::MAX,
                forall|j: int| 0 <= j < numbers@.len() ==> #[trigger] numbers@[j] <= 9,
                soma <= 9 * (numbers@.len() - i),
                luhn_soma(numbers@, true) == soma + luhn_soma(numbers@.take(i as int), impar),
            decreases i,
        {
            let d = numbers[i - 1];
            let contribuicao: u128 = if impar {
                d as u128
            } else {
                (d / 5 + (2 * d) % 10) as u128
            };
            proof {
                assert(numbers@.take(i as int).last() == numbers@[i - 1]);
                assert(numbers@.take(i as int).drop_last() =~= numbers@.take(i as int - 1));
            }
            soma = soma + contribuicao;
            impar = !impar;
            i = i - 1;
        }
        proof {
            assert(numbers@.take(0) =~= Seq::<u32>::empty());
        }
        soma % 10 == 0
    }

    fn validar(&self) -> (r: bool) {
        Self::is_valid(self.0)
    }
}

} // verus!
