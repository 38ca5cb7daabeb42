//! Unit tests of the shared primitives and of every document validator.

use validador_br::funcoes::{calc_digito, completa_esquerda, mod_11, somente_digitos};
use validador_br::types::{
    CartaoCredito, Cnh, Cnpj, Cns, CodigoBarrasGs1, Cpf, Pis, Renavam, Rg, TituloEleitor,
};
use validador_br::validador::Validador;

#[test]
fn lib_test_mod_11() {
    let test = |input: u32, output: usize| {
        let result = mod_11(input);
        assert_eq!(result, output);
    };

    test(810, 7);
    test(820, 6);
    test(830, 5);
    test(840, 4);
    test(850, 3);
    test(860, 2);
    test(870, 1);
    test(880, 0);
    test(890, 0);
    test(900, 9);
    test(910, 8);
    test(920, 7);
    test(930, 6);
    test(940, 5);
    test(950, 4);
    test(960, 3);
    test(970, 2);
    test(980, 1);
    test(990, 0);
    test(1000, 0);
    test(1010, 9);
    test(1020, 8);
    test(1030, 7);
    test(1040, 6);
    test(1050, 5);
    test(1060, 4);
    test(1070, 3);
    test(1080, 2);
    test(2510, 2);
}

#[test]
fn lib_test_calc_digito() {
    let test = |input: &str, multiplicadores: Vec<u32>| {
        let split_size = multiplicadores.len();
        let mut digitos = somente_digitos(input, split_size + 1);
        let output = digitos.split_off(split_size);
        let result = calc_digito(digitos, multiplicadores, |x| mod_11(10 * x) as u32);
        assert_eq!(result, output[0]);
    };

    test("1556748620", vec![10, 9, 8, 7, 6, 5, 4, 3, 2]);
    test("0155674862", vec![10, 9, 8, 7, 6, 5, 4, 3, 2]);
    test("26.911.358-70", vec![10, 9, 8, 7, 6, 5, 4, 3, 2]);
    test("326.911.358-7", vec![10, 9, 8, 7, 6, 5, 4, 3, 2]);
    test("883.926.778-6", vec![10, 9, 8, 7, 6, 5, 4, 3, 2]);
    test("83.926.778-62", vec![10, 9, 8, 7, 6, 5, 4, 3, 2]);
    test("0155674862", vec![10, 9, 8, 7, 6, 5, 4, 3, 2]);
}

#[test]
fn lib_test_somente_digitos() {
    let test = |input: &str, output: Vec<u32>| {
        let result = somente_digitos(input, input.len());
        assert_eq!(result, output);
    };

    test("0", vec![0]);
    test("1", vec![1]);
    test("5", vec![5]);
    test("9", vec![9]);
    test("10", vec![1, 0]);
    test("123", vec![1, 2, 3]);
    test("1.23-0", vec![1, 2, 3, 0]);
    test("1.23/001-0", vec![1, 2, 3, 0, 0, 1, 0]);
}

#[test]
fn lib_test_completa_esquerda() {
    let mut value = vec![1, 2, 3];
    completa_esquerda(&mut value, 4);
    assert!(value == vec![0, 1, 2, 3]);

    let mut value = vec![7, 5, 2, 2, 4, 1, 3, 9, 1, 5];
    completa_esquerda(&mut value, 13);
    assert!(value == vec![0, 0, 0, 7, 5, 2, 2, 4, 1, 3, 9, 1, 5]);

    let mut value = vec![7, 8, 9];
    completa_esquerda(&mut value, 3);
    assert!(value == vec![7, 8, 9]);

    let mut value = vec![7, 8, 9, 0, 0, 0, 0];
    completa_esquerda(&mut value, 7);
    assert!(value == vec![7, 8, 9, 0, 0, 0, 0]);

    let mut value = vec![0, 0, 7, 8, 9, 0, 0];
    completa_esquerda(&mut value, 8);
    assert!(value == vec![0, 0, 0, 7, 8, 9, 0, 0]);

    let mut value = vec![0, 0, 0, 7, 5, 2, 2, 4, 1, 3, 9, 1, 5];
    completa_esquerda(&mut value, 5);
    assert!(value == vec![0, 0, 0, 7, 5, 2, 2, 4, 1, 3, 9, 1, 5]);
}

#[test]
fn lib_test_valid_cpf() {
    assert!(Cpf("085.668.830-47").validar());
    assert!(Cpf("712.926.512-45").validar());
    assert!(Cpf("974.749.266-01").validar());
    assert!(Cpf("201.859.154-18").validar());
    assert!(Cpf("274.047.203-03").validar());
    assert!(Cpf("864.148.641-02").validar());
}

#[test]
fn lib_test_valid_cnpj() {
    assert!(Cnpj("14.572.457.0001-85").validar());
    assert!(Cnpj("76.553.412/0001-10").validar());
    assert!(Cnpj("45.184.338/0001-89").validar());
    assert!(Cnpj("37.645.328/0001-75").validar());
    assert!(Cnpj("55.131.839/0001-50").validar());
    assert!(Cnpj("44.122.045/0001-04").validar());
    assert!(Cnpj("41.768.737/0001-36").validar());
    assert!(Cnpj("89.267.553/0001-19").validar());
    assert!(Cnpj("40.357.317/0001-02").validar());
    assert!(Cnpj("46.922.782/0001-17").validar());
    assert!(Cnpj("86.107.547/0001-06").validar());
}

#[test]
fn lib_test_valid_cc() {
    assert!(CartaoCredito("5312 8338 4531 6765").validar());
    assert!(CartaoCredito("5440 4970 4224 4678").validar());
    assert!(CartaoCredito("6011 1122 7847 6822").validar());
    assert!(CartaoCredito("3479 467653 71543").validar());
    assert!(CartaoCredito("2014 4799698 0942").validar());
    assert!(CartaoCredito("6062 8271 2873 9719").validar());
}

#[test]
fn lib_test_valid_titulo_eleitor() {
    assert!(TituloEleitor("00435687 09-06").validar());
    assert!(TituloEleitor("781613810175").validar());
    assert!(TituloEleitor("8645582519 29").validar());
    assert!(TituloEleitor("272.20357 20-20").validar());
}

#[test]
fn lib_test_valid_cnh() {
    assert!(Cnh("81814756744").validar());
    assert!(Cnh("28851304391").validar());
    assert!(Cnh("72887311600").validar());
    assert!(Cnh("86033265137").validar());
    assert!(Cnh("40386768760").validar());
}

#[test]
fn lib_test_valid_renavam() {
    assert!(Renavam("55879397036").validar());
    assert!(Renavam("31264299604").validar());
    assert!(Renavam("26739874261").validar());
    assert!(Renavam("18946231365").validar());
    assert!(Renavam("0269.417.0174").validar());
    assert!(Renavam("2694170174").validar());
    assert!(Renavam("61631697260").validar());
    assert!(Renavam("03340530540").validar());
    assert!(Renavam("3340530540").validar());
    assert!(Renavam("891353364").validar());
    assert!(Renavam("MG48.101 477-2").validar());
}

#[test]
fn lib_test_valid_rg() {
    assert!(Rg("14.176.381-4").validar());
    assert!(Rg("28.530.378-8").validar());
    assert!(Rg("28.346.393-4").validar());
    assert!(Rg("39.371.494-9").validar());
    assert!(Rg("24.657.777-0").validar());
    assert!(Rg("17.227.771-1").validar());
}

#[test]
fn lib_test_valid_cns() {
    assert!(Cns("184184462180018").validar());
    assert!(Cns("140387139970001").validar());
    assert!(Cns("178095857640000").validar());
    assert!(Cns("962183461450002").validar());
    assert!(Cns("189444452860006").validar());
    assert!(Cns("107254212750009").validar());
    assert!(Cns("233954785680009").validar());
    assert!(Cns("163273888290018").validar());
    assert!(Cns("207066918130005").validar());
    assert!(Cns("852892869900003").validar());
    assert!(Cns("720641595950005").validar());
    assert!(Cns("294490488830009").validar());
    assert!(Cns("864468656740001").validar());
    assert!(Cns("171034974690006").validar());
    assert!(Cns("111059690060009").validar());
    assert!(Cns("734512532720004").validar());
    assert!(Cns("274579054310008").validar());
    assert!(Cns("244688881450002").validar());
    assert!(Cns("701996683420003").validar());
    assert!(Cns("118934023320006").validar());
    assert!(Cns("220780617770000").validar());
    assert!(Cns("213826540730001").validar());
    assert!(Cns("281440564810008").validar());
    assert!(Cns("241293038630002").validar());
    assert!(Cns("186487812210006").validar());
    assert!(Cns("269472194400008").validar());
    assert!(Cns("816685676560004").validar());
    assert!(Cns("188643188220000").validar());
    assert!(Cns("703828335240002").validar());
    assert!(Cns("858681602500018").validar());
    assert!(Cns("181068087580004").validar());
    assert!(Cns("169391037690002").validar());
    assert!(Cns("216015350640002").validar());
    assert!(Cns("855561772500007").validar());
    assert!(Cns("171581061380018").validar());
    assert!(Cns("141674939420009").validar());
    assert!(Cns("764078680590003").validar());
    assert!(Cns("272101781280001").validar());
    assert!(Cns("792869204500009").validar());
    assert!(Cns("284830935640009").validar());
    assert!(Cns("149261133080003").validar());
    assert!(Cns("851068307450018").validar());
    assert!(Cns("158482206870007").validar());
    assert!(Cns("190191624780009").validar());
    assert!(Cns("871946533020007").validar());
    assert!(Cns("839286321970004").validar());
    assert!(Cns("268240267290004").validar());
    assert!(Cns("257633494510009").validar());
    assert!(Cns("191619409830006").validar());
    assert!(Cns("282467243710003").validar());
}

#[test]
fn lib_test_valid_pis() {
    assert!(Pis("608.37951.54-6").validar());
    assert!(Pis("317.73180.80-0").validar());
}

#[test]
fn lib_test_valid_codigobar() {
    assert!(CodigoBarrasGs1("7891234-2").validar());
    assert!(CodigoBarrasGs1("12345 6000-12").validar());
    assert!(CodigoBarrasGs1("614141007349").validar());
    assert!(CodigoBarrasGs1("811571013579").validar());
    assert!(CodigoBarrasGs1("4012345678901").validar());
    assert!(CodigoBarrasGs1("5901234123457").validar());
    assert!(CodigoBarrasGs1("1234567 890128").validar());
    assert!(CodigoBarrasGs1("7350053850033").validar());
    assert!(CodigoBarrasGs1("1312345123456 6").validar());
    assert!(CodigoBarrasGs1("789030058465-1").validar());
    assert!(CodigoBarrasGs1("789123456789-5").validar());
    assert!(CodigoBarrasGs1("789100031550-7").validar());
    assert!(CodigoBarrasGs1("1789835741001-2").validar());
    assert!(CodigoBarrasGs1("1 7891234 12345 6").validar());
    assert!(CodigoBarrasGs1("18496578214564").validar());
    assert!(CodigoBarrasGs1("376104250021234569").validar());
    assert!(CodigoBarrasGs1("376.10425002.123456-9").validar());
}
