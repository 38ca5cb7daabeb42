//! Construction of validated candidates from raw text.  Each `try_from`
//! validates the text as its format and, on success, wraps the original text
//! untouched; on failure it yields the format's one fixed message.
//! Construction never mutates or normalizes the input.

use vstd::prelude::*;

use crate::types::CartaoCredito;
use crate::types::Cnh;
use crate::types::Cnpj;
use crate::types::Cns;
use crate::types::CodigoBarrasGs1;
use crate::types::Cpf;
use crate::types::Pis;
use crate::types::Renavam;
use crate::types::Rg;
use crate::types::TituloEleitor;
use crate::validador::espec_cartao_valido;
use crate::validador::espec_cnh_valido;
use crate::validador::espec_cnpj_valido;
use crate::validador::espec_cns_valido;
use crate::validador::espec_cpf_valido;
use crate::validador::espec_gs1_valido;
use crate::validador::espec_pis_valido;
use crate::validador::espec_renavam_valido;
use crate::validador::espec_rg_valido;
use crate::validador::espec_titulo_valido;
use crate::validador::Validador;

verus! {

impl<'data> CartaoCredito<'data> {
    /// Wraps the text when it passes the Luhn check, else reports the fixed
    /// payment-card message.
    pub fn try_from(value: &'data str) -> (r: Result<Self, &'static str>)
        ensures
            espec_cartao_valido(value@) ==> (r matches Ok(c) && c.0@ == value@),
            !espec_cartao_valido(value@) ==> (r matches Err(m) && m@ == "Cartão de crédito inválido"@),
    {
        if Self::is_valid(value) {
            Ok(CartaoCredito(value))
        } else {
            Err("Cartão de crédito inválido")
        }
    }
}

impl<'data> Cpf<'data> {
    /// Wraps the text when it passes the CPF check, else reports the fixed
    /// CPF message.
    pub fn try_from(value: &'data str) -> (r: Result<Self, &'static str>)
        ensures
            espec_cpf_valido(value@) ==> (r matches Ok(c) && c.0@ == value@),
            !espec_cpf_valido(value@) ==> (r matches Err(m) && m@ == "Cpf inválido"@),
    {
        if Self::is_valid(value) {
            Ok(Cpf(value))
        } else {
            Err("Cpf inválido")
        }
    }
}

impl<'data> Cnh<'data> {
    /// Wraps the text when it passes the driver-license check, else reports
    /// the fixed driver-license message.
    pub fn try_from(value: &'data str) -> (r: Result<Self, &'static str>)
        ensures
            espec_cnh_valido(value@) ==> (r matches Ok(c) && c.0@ == value@),
            !espec_cnh_valido(value@) ==> (r matches Err(m) && m@
                == "Carteira de motorista inválida"@),
    {
        if Self::is_valid(value) {
            Ok(Cnh(value))
        } else {
            Err("Carteira de motorista inválida")
        }
    }
}

impl<'data> Cnpj<'data> {
    /// Wraps the text when it passes the CNPJ check, else reports the fixed
    /// CNPJ message.
    pub fn try_from(value: &'data str) -> (r: Result<Self, &'static str>)
        ensures
            espec_cnpj_valido(value@) ==> (r matches Ok(c) && c.0@ == value@),
            !espec_cnpj_valido(value@) ==> (r matches Err(m) && m@ == "cnpj inválido"@),
    {
        if Self::is_valid(value) {
            Ok(Cnpj(value))
        } else {
            Err("cnpj inválido")
        }
    }
}

impl<'data> Cns<'data> {
    /// Wraps the text when it passes the health-card check, else reports the
    /// fixed health-card message.
    pub fn try_from(value: &'data str) -> (r: Result<Self, &'static str>)
        ensures
            espec_cns_valido(value@) ==> (r matches Ok(c) && c.0@ == value@),
            !espec_cns_valido(value@) ==> (r matches Err(m) && m@ == "Cartão de saúde inválido"@),
    {
        if Self::is_valid(value) {
            Ok(Cns(value))
        } else {
            Err("Cartão de saúde inválido")
        }
    }
}

impl<'data> Pis<'data> {
    /// Wraps the text when it passes the PIS check, else reports the fixed
    /// PIS message.
    pub fn try_from(value: &'data str) -> (r: Result<Self, &'static str>)
        ensures
            espec_pis_valido(value@) ==> (r matches Ok(c) && c.0@ == value@),
            !espec_pis_valido(value@) ==> (r matches Err(m) && m@ == "Número do Pis inválido"@),
    {
        if Self::is_valid(value) {
            Ok(Pis(value))
        } else {
            Err("Número do Pis inválido")
        }
    }
}

impl<'data> Renavam<'data> {
    /// Wraps the text when it passes the RENAVAM check, else reports the
    /// fixed RENAVAM message.
    pub fn try_from(value: &'data str) -> (r: Result<Self, &'static str>)
        ensures
            espec_renavam_valido(value@) ==> (r matches Ok(c) && c.0@ == value@),
            !espec_renavam_valido(value@) ==> (r matches Err(m) && m@
                == "Número do Renavam inválido"@),
    {
        if Self::is_valid(value) {
            Ok(Renavam(value))
        } else {
            Err("Número do Renavam inválido")
        }
    }
}

impl<'data> Rg<'data> {
    /// Wraps the text when it passes the RG check, else reports the fixed RG
    /// message.
    pub fn try_from(value: &'data str) -> (r: Result<Self, &'static str>)
        ensures
            espec_rg_valido(value@) ==> (r matches Ok(c) && c.0@ == value@),
            !espec_rg_valido(value@) ==> (r matches Err(m) && m@
                == "Não foi possível validar o número de identidade. Verifique a legislação do seu Estado"@),
    {
        if Self::is_valid(value) {
            Ok(Rg(value))
        } else {
            Err("Não foi possível validar o número de identidade. Verifique a legislação do seu Estado")
        }
    }
}

impl<'data> TituloEleitor<'data> {
    /// Wraps the text when it passes the voter-registration check, else
    /// reports the fixed voter-registration message.
    pub fn try_from(value: &'data str) -> (r: Result<Self, &'static str>)
        ensures
            espec_titulo_valido(value@) ==> (r matches Ok(c) && c.0@ == value@),
            !espec_titulo_valido(value@) ==> (r matches Err(m) && m@
                == "Número do Título de Eleitor inválido"@),
    {
        if Self::is_valid(value) {
            Ok(TituloEleitor(value))
        } else {
            Err("Número do Título de Eleitor inválido")
        }
    }
}

impl<'data> CodigoBarrasGs1<'data> {
    /// Wraps the text when it passes the GS1 check, else reports the fixed
    /// barcode message.
    pub fn try_from(value: &'data str) -> (r: Result<Self, &'static str>)
        ensures
            espec_gs1_valido(value@) ==> (r matches Ok(c) && c.0@ == value@),
            !espec_gs1_valido(value@) ==> (r matches Err(m) && m@
                == "Não foi possível validar o dígito verificador do código de barras"@),
    {
        if Self::is_valid(value) {
            Ok(CodigoBarrasGs1(value))
        } else {
            Err("Não foi possível validar o dígito verificador do código de barras")
        }
    }
}

} // verus!
