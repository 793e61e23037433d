//! Apoio de apresentacao: nomes de arquivos de carta, cores de selecao,
//! posicao relativa na mesa, classificacao visual de canastras, ordenacao
//! de cartas para exibicao e leitura de indices digitados.
//!
//! Nada aqui decide regra alguma: a ordenacao de exibicao e um palpite
//! visual (o contrato garante apenas que nenhuma carta aparece nem some), e
//! a classificacao de canastra segue a convencao da interface.

use crate::baralho::{indice_valor, Carta, Naipe, Valor, Verso};
use vstd::prelude::*;
use vstd::seq_lib::lemma_multiset_commutative;
use vstd::multiset::Multiset;
use vstd::string::StringExecFns;
use vstd::string::StringSliceAdditionalSpecFns;

verus! {

broadcast use vstd::seq_lib::group_to_multiset_ensures, vstd::multiset::group_multiset_axioms;

/// Letra do naipe na convencao dos arquivos de carta.
pub open spec fn letra_naipe(n: Naipe) -> Seq<char> {
    match n {
        Naipe::Paus => "c"@,
        Naipe::Ouros => "d"@,
        Naipe::Copas => "h"@,
        Naipe::Espadas => "s"@,
        Naipe::Nenhum => "joker"@,
    }
}

/// Letra do valor na convencao dos arquivos de carta.
pub open spec fn letra_valor(v: Valor) -> Seq<char> {
    match v {
        Valor::As => "a"@,
        Valor::Dois => "2"@,
        Valor::Tres => "3"@,
        Valor::Quatro => "4"@,
        Valor::Cinco => "5"@,
        Valor::Seis => "6"@,
        Valor::Sete => "7"@,
        Valor::Oito => "8"@,
        Valor::Nove => "9"@,
        Valor::Dez => "10"@,
        Valor::Valete => "j"@,
        Valor::Dama => "q"@,
        Valor::Rei => "k"@,
        Valor::Joker => "joker"@,
    }
}

/// O identificador de arquivo de uma carta: Joker vira `joker_r`; as
/// demais viram `naipe_valor` (por exemplo `c_4`).
pub open spec fn asset_carta(c: Carta) -> Seq<char> {
    if c.valor == Valor::Joker {
        "joker_r"@
    } else {
        letra_naipe(c.naipe) + "_"@ + letra_valor(c.valor)
    }
}

/// Identificador de arquivo da carta, na convencao dos assets.
pub fn carta_para_asset(carta: &Carta) -> (r: String)
    ensures
        r@ == asset_carta(*carta),
{
    if matches!(carta.valor, Valor::Joker) {
        return "joker_r".to_owned();
    }
    let naipe_str: &str = match carta.naipe {
        Naipe::Paus => "c",
        Naipe::Ouros => "d",
        Naipe::Copas => "h",
        Naipe::Espadas => "s",
        Naipe::Nenhum => "joker",
    };
    let valor_str: &str = match carta.valor {
        Valor::As => "a",
        Valor::Dois => "2",
        Valor::Tres => "3",
        Valor::Quatro => "4",
        Valor::Cinco => "5",
        Valor::Seis => "6",
        Valor::Sete => "7",
        Valor::Oito => "8",
        Valor::Nove => "9",
        Valor::Dez => "10",
        Valor::Valete => "j",
        Valor::Dama => "q",
        Valor::Rei => "k",
        Valor::Joker => "joker",
    };
    let mut r = naipe_str.to_owned();
    r.append("_");
    r.append(valor_str);
    r
}

/// Caminho completo do arquivo png de uma carta, a partir do identificador.
pub fn get_card_path(card_id: &str) -> (r: String)
    ensures
        r@ == "/assets/cards/PaperCards1.1/"@ + card_id@ + ".png"@,
{
    let mut r = "/assets/cards/PaperCards1.1/".to_owned();
    r.append(card_id);
    r.append(".png");
    r
}

/// Caminho do verso da carta: "b" para azul, "r" para vermelho.
pub fn get_back_path(color: &str) -> (r: String)
    ensures
        r@ == "/assets/cards/PaperCards1.1/back_"@ + color@ + ".png"@,
{
    let mut r = "/assets/cards/PaperCards1.1/back_".to_owned();
    r.append(color);
    r.append(".png");
    r
}

/// A cor CSS do grupo de selecao de indice dado.
pub open spec fn cor_selecao(g: int) -> Seq<char> {
    if g % 5 == 0 {
        "blue"@
    } else if g % 5 == 1 {
        "green"@
    } else if g % 5 == 2 {
        "orange"@
    } else if g % 5 == 3 {
        "purple"@
    } else {
        "cyan"@
    }
}

/// Cor CSS usada para destacar o grupo de selecao de cartas.
pub fn get_selection_color(group_index: usize) -> (r: &'static str)
    ensures
        r@ == cor_selecao(group_index as int),
{
    match group_index % 5 {
        0 => "blue",
        1 => "green",
        2 => "orange",
        3 => "purple",
        _ => "cyan",
    }
}

/// A posicao de um jogador na tela, vista por outro (rotacao modulo 4).
pub open spec fn posicao_relativa(meu: int, alvo: int) -> Seq<char> {
    let d = (alvo - meu + 4) % 4;
    if d == 0 {
        "bottom"@
    } else if d == 1 {
        "right"@
    } else if d == 2 {
        "top"@
    } else {
        "left"@
    }
}

/// Posicao relativa na tela ("bottom", "right", "top", "left").
pub fn get_relative_position(my_id: u32, target_id: u32) -> (r: &'static str)
    requires
        my_id < 4,
        target_id < 4,
    ensures
        r@ == posicao_relativa(my_id as int, target_id as int),
{
    let diff = (target_id as i32 - my_id as i32 + 4) % 4;
    match diff {
        0 => "bottom",
        1 => "right",
        2 => "top",
        _ => "left",
    }
}

/// Identificador do verso conforme a cor escolhida (vermelho por padrao).
pub fn verso_para_asset(verso: Option<Verso>) -> (r: String)
    ensures
        verso == Some(Verso::Blue) ==> r@ == "back_b"@,
        verso != Some(Verso::Blue) ==> r@ == "back_r"@,
{
    match verso {
        Some(Verso::Blue) => "back_b".to_owned(),
        _ => "back_r".to_owned(),
    }
}

/// Classificacao visual de um jogo na mesa.
#[derive(Debug, Clone, Copy, PartialEq, Eq, Structural)]
pub enum StatusCanastra {
    /// Menos de 7 cartas.
    Normal,
    /// 7+ cartas sem o coringuinha (o 2); Jokers nao tiram o titulo aqui.
    Real,
    /// 7+ cartas com algum 2.
    Suja,
}

/// A classificacao visual de um grupo: com 7+ cartas, `Suja` se ha algum 2,
/// senao `Real`; abaixo disso, `Normal`.
pub open spec fn status_canastra(s: Seq<Carta>) -> StatusCanastra {
    if s.len() < 7 {
        StatusCanastra::Normal
    } else if exists|i: int| 0 <= i < s.len() && (#[trigger] s[i]).valor == Valor::Dois {
        StatusCanastra::Suja
    } else {
        StatusCanastra::Real
    }
}

/// Classifica um jogo para a interface: Normal, Real ou Suja.
pub fn analisar_status_canastra(cartas: &[Carta]) -> (r: StatusCanastra)
    ensures
        r == status_canastra(cartas@),
{
    let n = cartas.len();
    if n < 7 {
        return StatusCanastra::Normal;
    }
    let mut i: usize = 0;
    while i < n
        invariant
            n == cartas@.len(),
            n >= 7,
            i <= n,
            forall|k: int| 0 <= k < i ==> (#[trigger] cartas@[k]).valor != Valor::Dois,
        decreases n - i,
    {
        if matches!(cartas[i].valor, Valor::Dois) {
            proof {
                assert(cartas@[i as int].valor == Valor::Dois);
            }
            return StatusCanastra::Suja;
        }
        i += 1;
    }
    proof {
        assert(!(exists|k: int|
            0 <= k < cartas@.len() && (#[trigger] cartas@[k]).valor == Valor::Dois)) by {
            if exists|k: int| 0 <= k < cartas@.len() && (#[trigger] cartas@[k]).valor
                == Valor::Dois {
                let w = choose|k: int|
                    0 <= k < cartas@.len() && (#[trigger] cartas@[k]).valor == Valor::Dois;
            }
        }
    }
    StatusCanastra::Real
}

/// Indice visual de uma carta: As alto (14), demais pelo indice As=1.
pub open spec fn indice_visual(c: Carta) -> int {
    if c.valor == Valor::As {
        14
    } else {
        indice_valor(c.valor)
    }
}

/// Indice visual de uma carta, em executavel.
fn valor_visual(c: &Carta) -> (r: u8)
    ensures
        r as int == indice_visual(*c),
{
    match c.valor {
        Valor::As => 14,
        _ => c.valor.indice_sequencia(),
    }
}

/// Ordena um grupo de cartas pelo indice visual, por extracao de minimos.
/// O contrato garante a permutacao; a ordem em si e so exibicao.
fn ordenar_por_indice_visual(v: Vec<Carta>) -> (r: Vec<Carta>)
    ensures
        r@.to_multiset() == v@.to_multiset(),
        r@.len() == v@.len(),
{
    let mut resto = v;
    let mut saida: Vec<Carta> = Vec::new();
    let ghost total = resto@.to_multiset();
    while resto.len() > 0
        invariant
            saida@.to_multiset().add(resto@.to_multiset()) == total,
            saida@.len() + resto@.len() == total.len(),
        decreases resto@.len(),
    {
        let mut imin: usize = 0;
        let mut j: usize = 1;
        while j < resto.len()
            invariant
                resto@.len() > 0,
                imin < resto@.len(),
                j <= resto@.len(),
            decreases resto@.len() - j,
        {
            if valor_visual(&resto[j]) < valor_visual(&resto[imin]) {
                imin = j;
            }
            j += 1;
        }
        let ghost resto_antes = resto@;
        let c = resto.remove(imin);
        saida.push(c);
        proof {
            assert(resto@ =~= resto_antes.remove(imin as int));
        }
    }
    saida
}

/// Mover um elemento de um lado para o outro preserva a soma.
proof fn lema_transfere(resms: Multiset<Carta>, curms: Multiset<Carta>, c: Carta)
    requires
        curms.count(c) > 0,
    ensures
        resms.insert(c).add(curms.remove(c)) =~= resms.add(curms),
{
}

/// Um passo de consumo pela frente: o multiconjunto de `skip(k)` e o de
/// `skip(k + 1)` mais o elemento `s[k]`.
proof fn lema_skip_passo(s: Seq<Carta>, k: int)
    requires
        0 <= k < s.len(),
    ensures
        s.skip(k).to_multiset() =~= s.skip(k + 1).to_multiset().insert(s[k]),
{
    assert(s.skip(k).remove(0) =~= s.skip(k + 1));
    assert(s.skip(k)[0] == s[k]);
    assert(s.skip(k).remove(0).to_multiset() =~= s.skip(k).to_multiset().remove(s[k]));
    assert(s.skip(k).contains(s[k]));
    assert(s.skip(k).to_multiset().count(s[k]) > 0);
    assert(s.skip(k).to_multiset() =~= s.skip(k + 1).to_multiset().insert(s[k]));
}

/// Reordena as cartas de um jogo para exibicao: naturais em ordem, com os
/// coringas encaixados nas lacunas e as sobras nas pontas. O contrato
/// garante que o resultado e uma permutacao exata da entrada.
pub fn organizar_para_exibicao(cartas: &[Carta]) -> (r: Vec<Carta>)
    ensures
        r@.to_multiset() == cartas@.to_multiset(),
        r@.len() == cartas@.len(),
{
    let ghost total = cartas@.to_multiset();
    let n = cartas.len();
    let mut naturais: Vec<Carta> = Vec::new();
    let mut curingas: Vec<Carta> = Vec::new();
    let mut i: usize = 0;
    while i < n
        invariant
            n == cartas@.len(),
            i <= n,
            naturais@.to_multiset().add(curingas@.to_multiset()) == cartas@.take(
                i as int,
            ).to_multiset(),
            naturais@.len() + curingas@.len() == i,
        decreases n - i,
    {
        proof {
            assert(cartas@.take(i + 1) =~= cartas@.take(i as int).push(cartas@[i as int]));
        }
        let c = cartas[i];
        if matches!(c.valor, Valor::Joker | Valor::Dois) {
            curingas.push(c);
        } else {
            naturais.push(c);
        }
        i += 1;
    }
    proof {
        assert(cartas@.take(n as int) =~= cartas@);
    }
    if naturais.is_empty() {
        let t = ordenar_por_indice_visual(curingas);
        proof {
            assert(t@.to_multiset().add(naturais@.to_multiset()) =~= total);
            assert(naturais@.to_multiset().len() == 0);
            assert(t@.to_multiset() =~= total);
        }
        return t;
    }
    let mut naturais = ordenar_por_indice_visual(naturais);
    // Lavadeira (todas as naturais do mesmo valor): naturais e depois coringas.
    let eh_trinca = naturais.len() >= 2 && {
        let a = naturais[0];
        let b = naturais[naturais.len() - 1];
        a.valor == b.valor
    };
    if eh_trinca {
        let mut curingas = curingas;
        proof {
            lemma_multiset_commutative(naturais@, curingas@);
        }
        naturais.append(&mut curingas);
        return naturais;
    }
    // Monta a corrida preenchendo lacunas com coringas.
    let mut resultado: Vec<Carta> = Vec::new();
    let mut curingas = curingas;
    let ghost nat_s = naturais@;
    let nn = naturais.len();
    let mut anterior: u8 = 0;
    let mut k: usize = 0;
    proof {
        assert(nat_s.skip(0) =~= nat_s);
        assert(resultado@.to_multiset().len() == 0);
        assert(resultado@.to_multiset().add(curingas@.to_multiset()).add(nat_s.to_multiset())
            =~= total);
    }
    while k < nn
        invariant
            nn == nat_s.len(),
            naturais@ == nat_s,
            k <= nn,
            resultado@.to_multiset().add(curingas@.to_multiset()).add(
                nat_s.skip(k as int).to_multiset(),
            ) == total,
        decreases nn - k,
    {
        proof {
            lema_skip_passo(nat_s, k as int);
        }
        let atual = naturais[k];
        let idx_atual = valor_visual(&atual);
        if k > 0 {
            let gap = if idx_atual > anterior {
                idx_atual - anterior
            } else {
                0
            };
            if gap > 1 {
                let mut b: u8 = 0;
                while b < gap - 1
                    invariant
                        nat_s.len() > 0,
                        k < nat_s.len(),
                        resultado@.to_multiset().add(curingas@.to_multiset()).add(
                            nat_s.skip(k as int).to_multiset(),
                        ) == total,
                        gap >= 1,
                        b <= gap - 1,
                    decreases gap - 1 - b,
                {
                    let ghost cur_antes = curingas@;
                    let ghost res_antes = resultado@;
                    let tirada = curingas.pop();
                    match tirada {
                        Some(cj) => {
                            resultado.push(cj);
                            proof {
                                assert(curingas@ =~= cur_antes.remove(cur_antes.len() - 1));
                                assert(cur_antes.remove(cur_antes.len() - 1).to_multiset()
                                    =~= cur_antes.to_multiset().remove(cj));
                                assert(cur_antes.contains(cj));
                                lema_transfere(
                                    res_antes.to_multiset(),
                                    cur_antes.to_multiset(),
                                    cj,
                                );
                                assert(resultado@.to_multiset().add(curingas@.to_multiset())
                                    =~= res_antes.to_multiset().add(cur_antes.to_multiset()));
                            }
                        },
                        None => {
                        },
                    }
                    b += 1;
                }
            }
        }
        let ghost res_antes2 = resultado@;
        resultado.push(atual);
        anterior = idx_atual;
        proof {
            assert(resultado@.to_multiset() =~= res_antes2.to_multiset().insert(nat_s[k as int]));
            assert(resultado@.to_multiset().add(curingas@.to_multiset()).add(
                nat_s.skip(k + 1).to_multiset(),
            ) =~= res_antes2.to_multiset().add(curingas@.to_multiset()).add(
                nat_s.skip(k as int).to_multiset(),
            ));
        }
        k += 1;
    }
    proof {
        assert(nat_s.skip(nn as int) =~= Seq::<Carta>::empty());
        assert(nat_s.skip(nn as int).to_multiset().len() == 0);
        assert(resultado@.to_multiset().add(curingas@.to_multiset()) =~= total);
    }
    // Sobras de coringa: crescem para a direita ate o As, o resto vai para
    // o comeco.
    let mut valor_ultimo = anterior;
    while curingas.len() > 0 && valor_ultimo < 14
        invariant
            resultado@.to_multiset().add(curingas@.to_multiset()) == total,
        decreases curingas@.len(),
    {
        let ghost cur_antes = curingas@;
        let ghost res_antes = resultado@;
        let tirada = curingas.pop();
        match tirada {
            Some(cj) => {
                resultado.push(cj);
                proof {
                    assert(curingas@ =~= cur_antes.remove(cur_antes.len() - 1));
                    assert(cur_antes.remove(cur_antes.len() - 1).to_multiset()
                        =~= cur_antes.to_multiset().remove(cj));
                    assert(cur_antes.contains(cj));
                    lema_transfere(res_antes.to_multiset(), cur_antes.to_multiset(), cj);
                    assert(resultado@.to_multiset().add(curingas@.to_multiset())
                        =~= res_antes.to_multiset().add(cur_antes.to_multiset()));
                }
            },
            None => {
            },
        }
        if valor_ultimo < 14 {
            valor_ultimo += 1;
        }
    }
    let mut frente = curingas;
    proof {
        lemma_multiset_commutative(frente@, resultado@);
    }
    frente.append(&mut resultado);
    proof {
        assert(frente@.to_multiset() =~= total);
        assert(frente@.len() == frente@.to_multiset().len());
        assert(cartas@.len() == cartas@.to_multiset().len());
    }
    frente
}

/// O naipe mais frequente do grupo, ignorando Jokers e (numa primeira
/// passada) os 2; devolve `None` so quando nada conta, isto e, quando o
/// grupo so tem Jokers.
pub fn descobrir_naipe_dominante(cartas: &[Carta]) -> (r: Option<Naipe>)
    ensures
        r is None ==> forall|i: int|
            0 <= i < cartas@.len() ==> (#[trigger] cartas@[i]).valor == Valor::Joker,
{
    let n = cartas.len();
    let mut contagem: Vec<usize> = Vec::new();
    let mut contagem_dois: Vec<usize> = Vec::new();
    let mut z: usize = 0;
    while z < 5
        invariant
            z <= 5,
            contagem@.len() == z,
            contagem_dois@.len() == z,
            forall|k: int| 0 <= k < z ==> #[trigger] contagem@[k] == 0,
            forall|k: int| 0 <= k < z ==> #[trigger] contagem_dois@[k] == 0,
        decreases 5 - z,
    {
        contagem.push(0);
        contagem_dois.push(0);
        z += 1;
    }
    let mut i: usize = 0;
    while i < n
        invariant
            n == cartas@.len(),
            i <= n,
            contagem@.len() == 5,
            contagem_dois@.len() == 5,
            forall|k: int| 0 <= k < 5 ==> #[trigger] contagem@[k] <= i,
            forall|k: int| 0 <= k < 5 ==> #[trigger] contagem_dois@[k] <= i,
            (exists|k: int| 0 <= k < 5 && #[trigger] contagem@[k] > 0) || (exists|k: int|
                0 <= k < 5 && #[trigger] contagem_dois@[k] > 0) || forall|j: int|
                0 <= j < i ==> (#[trigger] cartas@[j]).valor == Valor::Joker,
        decreases n - i,
    {
        let c = cartas[i];
        let pos: usize = match c.naipe {
            Naipe::Copas => 0,
            Naipe::Espadas => 1,
            Naipe::Ouros => 2,
            Naipe::Paus => 3,
            Naipe::Nenhum => 4,
        };
        if !matches!(c.valor, Valor::Joker) {
            if matches!(c.valor, Valor::Dois) {
                let atual = contagem_dois[pos];
                contagem_dois[pos] = atual + 1;
                proof {
                    assert(contagem_dois@[pos as int] > 0);
                }
            } else {
                let atual = contagem[pos];
                contagem[pos] = atual + 1;
                proof {
                    assert(contagem@[pos as int] > 0);
                }
            }
        }
        i += 1;
    }
    let usa_dois = contagem[0] == 0 && contagem[1] == 0 && contagem[2] == 0 && contagem[3] == 0
        && contagem[4] == 0;
    let tabela = if usa_dois {
        contagem_dois
    } else {
        contagem
    };
    let mut melhor: usize = 0;
    let mut melhor_qtd: usize = tabela[0];
    let mut p: usize = 1;
    while p < 5
        invariant
            tabela@.len() == 5,
            melhor < 5,
            1 <= p <= 5,
            melhor_qtd == tabela@[melhor as int],
            forall|q: int| 0 <= q < p ==> #[trigger] tabela@[q] <= melhor_qtd,
        decreases 5 - p,
    {
        if tabela[p] > melhor_qtd {
            melhor = p;
            melhor_qtd = tabela[p];
        }
        p += 1;
    }
    if melhor_qtd == 0 {
        proof {
            assert(forall|q: int| 0 <= q < 5 ==> #[trigger] tabela@[q] == 0);
        }
        return None;
    }
    Some(
        match melhor {
            0 => Naipe::Copas,
            1 => Naipe::Espadas,
            2 => Naipe::Ouros,
            3 => Naipe::Paus,
            _ => Naipe::Nenhum,
        },
    )
}

/// Quantos digitos decimais formam este numero.
pub open spec fn eh_digitos(s: Seq<u8>) -> bool {
    s.len() > 0 && forall|i: int| 0 <= i < s.len() ==> 48 <= #[trigger] s[i] <= 57
}

/// O valor decimal de uma sequencia de digitos ASCII.
pub open spec fn valor_decimal(s: Seq<u8>) -> int
    decreases s.len(),
{
    if s.len() == 0 {
        0
    } else {
        valor_decimal(s.drop_last()) * 10 + (s.last() - 48)
    }
}

/// Com so digitos, o valor de um prefixo nunca passa o valor do todo.
proof fn lema_valor_decimal_prefixo(s: Seq<u8>, i: int)
    requires
        0 <= i <= s.len(),
        forall|k: int| 0 <= k < s.len() ==> 48 <= #[trigger] s[k] <= 57,
    ensures
        0 <= valor_decimal(s.take(i)) <= valor_decimal(s),
    decreases s.len() - i,
{
    if i == 0 {
        assert(s.take(0) =~= Seq::<u8>::empty());
        lema_valor_decimal_nao_negativo(s);
    } else if i < s.len() {
        assert(s.take(i + 1).drop_last() =~= s.take(i));
        assert(s.take(i + 1).last() == s[i]);
        lema_valor_decimal_prefixo(s, i + 1);
        lema_valor_decimal_nao_negativo(s.take(i));
    } else {
        assert(s.take(i) =~= s);
        lema_valor_decimal_nao_negativo(s);
    }
}

/// O valor decimal de digitos nunca e negativo.
proof fn lema_valor_decimal_nao_negativo(s: Seq<u8>)
    requires
        forall|k: int| 0 <= k < s.len() ==> 48 <= #[trigger] s[k] <= 57,
    ensures
        valor_decimal(s) >= 0,
    decreases s.len(),
{
    if s.len() > 0 {
        assert(forall|k: int| 0 <= k < s.len() - 1 ==> s.drop_last()[k] == #[trigger] s[k]);
        lema_valor_decimal_nao_negativo(s.drop_last());
    }
}

/// Le um numero decimal de um texto: so digitos, e cabendo em `usize`.
pub fn analisar_numero(s: &str) -> (r: Option<usize>)
    ensures
        r matches Some(v) ==> eh_digitos(s.spec_bytes()) && v as int == valor_decimal(
            s.spec_bytes(),
        ),
        r is None ==> !eh_digitos(s.spec_bytes()) || valor_decimal(s.spec_bytes())
            > usize::MAX as int,
{
    let bytes = s.as_bytes();
    let ghost bs = s.spec_bytes();
    let n = bytes.len();
    if n == 0 {
        return None;
    }
    let mut acc: usize = 0;
    let mut i: usize = 0;
    while i < n
        invariant
            n == bs.len(),
            bytes@ == bs,
            bs == s.spec_bytes(),
            n > 0,
            i <= n,
            forall|k: int| 0 <= k < i ==> 48 <= #[trigger] bs[k] <= 57,
            acc as int == valor_decimal(bs.take(i as int)),
        decreases n - i,
    {
        proof {
            assert(bs.take(i + 1).drop_last() =~= bs.take(i as int));
            assert(bs.take(i + 1).last() == bs[i as int]);
        }
        let b = bytes[i];
        if b < 48 || b > 57 {
            proof {
                assert(!(48 <= bs[i as int] <= 57));
                assert(!eh_digitos(bs));
            }
            return None;
        }
        let d = (b - 48) as usize;
        if acc > (usize::MAX - d) / 10 {
            proof {
                assert(acc * 10 + d > usize::MAX as int) by (nonlinear_arith)
                    requires
                        acc > (usize::MAX - d) / 10,
                        0 <= d <= 9,
                ;
                assert(valor_decimal(bs.take(i + 1)) == acc * 10 + d);
                if forall|k: int| 0 <= k < bs.len() ==> 48 <= #[trigger] bs[k] <= 57 {
                    lema_valor_decimal_prefixo(bs, i + 1);
                    assert(valor_decimal(bs) > usize::MAX as int);
                } else {
                    assert(!eh_digitos(bs));
                }
            }
            return None;
        }
        acc = acc * 10 + d;
        i += 1;
    }
    proof {
        assert(bs.take(n as int) =~= bs);
    }
    Some(acc)
}

/// Le um indice digitado, se houver texto e ele for um numero.
pub fn ler_indice(s: Option<&&str>) -> (r: Option<usize>)
    ensures
        s is None ==> r is None,
        s matches Some(x) ==> (r matches Some(v) ==> eh_digitos(x.spec_bytes()) && v as int
            == valor_decimal(x.spec_bytes())),
        s matches Some(x) ==> (r is None ==> !eh_digitos(x.spec_bytes()) || valor_decimal(
            x.spec_bytes(),
        ) > usize::MAX as int),
{
    match s {
        None => None,
        Some(x) => analisar_numero(x),
    }
}

/// Os indices validos de uma lista de textos, na ordem.
pub open spec fn indices_validos(ss: Seq<&str>) -> Seq<usize>
    decreases ss.len(),
{
    if ss.len() == 0 {
        Seq::empty()
    } else {
        let r = indices_validos(ss.drop_last());
        let b = ss.last().spec_bytes();
        if eh_digitos(b) && valor_decimal(b) <= usize::MAX as int {
            r.push(valor_decimal(b) as usize)
        } else {
            r
        }
    }
}

/// Le todos os indices numericos de uma lista de textos, na ordem.
pub fn ler_varios_indices(slice: &[&str]) -> (r: Vec<usize>)
    ensures
        r@ == indices_validos(slice@),
{
    let ghost ss = slice@;
    let n = slice.len();
    let mut r: Vec<usize> = Vec::new();
    let mut i: usize = 0;
    while i < n
        invariant
            n == ss.len(),
            slice@ == ss,
            i <= n,
            r@ == indices_validos(ss.take(i as int)),
        decreases n - i,
    {
        proof {
            assert(ss.take(i + 1).drop_last() =~= ss.take(i as int));
            assert(ss.take(i + 1).last() == ss[i as int]);
        }
        let parsed = analisar_numero(slice[i]);
        match parsed {
            Some(v) => {
                r.push(v);
            },
            None => {
            },
        }
        i += 1;
    }
    proof {
        assert(ss.take(n as int) =~= ss);
    }
    r
}

} // verus!
