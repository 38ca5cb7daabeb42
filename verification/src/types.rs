//! The document candidates.  Each type is a read-only view over a
//! caller-owned text buffer, tagged with the document format it claims to be;
//! validity is recomputed on demand and never cached.

use vstd::prelude::*;

verus! {

/// Inscrição Estadual de uma unidade federativa.  Declared for callers that
/// carry state-issued registration numbers, but deliberately left without a
/// validator: each state defines its own algorithm.
pub struct IeUf<'data>(pub &'data str);

/// Cadastro de Pessoa Física.
pub struct Cpf<'data>(pub &'data str);

/// Cadastro de Pessoa Jurídica.
pub struct Cnpj<'data>(pub &'data str);

/// Inscrição Estadual.  Declared but deliberately left unimplemented.
pub struct Ie<'data>(pub IeUf<'data>);

/// Cartão de Crédito.
pub struct CartaoCredito<'data>(pub &'data str);

/// Título de Eleitor.
pub struct TituloEleitor<'data>(pub &'data str);

/// Carteira Nacional de Habilitação (Motorista).
pub struct Cnh<'data>(pub &'data str);

/// Registro Nacional de Veículos Automotores.
pub struct Renavam<'data>(pub &'data str);

/// Registro Geral, Cédula de Identidade.
pub struct Rg<'data>(pub &'data str);

/// Cartão Nacional de Saúde.
pub struct Cns<'data>(pub &'data str);

/// A health-card number is either a definitive CNS or a provisional number,
/// which follows the PIS algorithm instead.
pub enum TipoCns<'data> {
    Cns(Cns<'data>),
    Provisorio(Pis<'data>),
}

/// Código de Barras GS1, for example 7890300584651.
pub struct CodigoBarrasGs1<'data>(pub &'data str);

/// Programa de Integração Social: PIS, PASEP, NIT.
pub struct Pis<'data>(pub &'data str);

} // verus!
