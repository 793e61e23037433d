//! Modelo de pontuacao: somas de pontos de cartas, bonus de canastra e o
//! saldo parcial de um time ao fim da rodada.

use crate::acoes::DetalheJogo;
use crate::baralho::{pontos_carta, Carta};
use crate::regras::algum_coringa;
use vstd::prelude::*;

verus! {

/// Soma dos pontos das cartas de uma sequencia.
pub open spec fn pontos_cartas(s: Seq<Carta>) -> int
    decreases s.len(),
{
    if s.len() == 0 {
        0
    } else {
        pontos_cartas(s.drop_last()) + pontos_carta(s.last())
    }
}

/// Bonus de um jogo na mesa: nada abaixo de 7 cartas; 100 para canastra
/// suja (com coringa); 300 para canastra limpa.
pub open spec fn bonus_jogo(s: Seq<Carta>) -> int {
    if s.len() < 7 {
        0
    } else if algum_coringa(s) {
        100
    } else {
        300
    }
}

/// Um jogo da mesa e uma canastra limpa (7+ cartas, nenhum coringa)?
pub open spec fn canastra_real(s: Seq<Carta>) -> bool {
    s.len() >= 7 && !algum_coringa(s)
}

/// O time tem pelo menos uma canastra limpa na mesa?
pub open spec fn tem_canastra_real(js: Seq<DetalheJogo>) -> bool {
    exists|i: int| 0 <= i < js.len() && canastra_real(#[trigger] js[i].cartas@)
}

/// Total de cartas nos jogos de uma mesa.
pub open spec fn cartas_mesa(js: Seq<DetalheJogo>) -> int
    decreases js.len(),
{
    if js.len() == 0 {
        0
    } else {
        cartas_mesa(js.drop_last()) + js.last().cartas@.len()
    }
}

/// Pontos da mesa de um time: cartas somadas mais o bonus de cada jogo.
pub open spec fn pontos_mesa(js: Seq<DetalheJogo>) -> int
    decreases js.len(),
{
    if js.len() == 0 {
        0
    } else {
        pontos_mesa(js.drop_last()) + pontos_cartas(js.last().cartas@) + bonus_jogo(
            js.last().cartas@,
        )
    }
}

/// Valor dos 3 vermelhos guardados: +100 cada com canastra limpa na mesa,
/// -100 cada sem ela.
pub open spec fn pontos_tres(js: Seq<DetalheJogo>, tres: Seq<Carta>) -> int {
    if tem_canastra_real(js) {
        100 * (tres.len() as int)
    } else {
        -100 * (tres.len() as int)
    }
}

/// Saldo parcial de um time ao fim da rodada: 3 vermelhos mais a mesa.
pub open spec fn parcial(js: Seq<DetalheJogo>, tres: Seq<Carta>) -> int {
    pontos_tres(js, tres) + pontos_mesa(js)
}

/// Limites da soma de pontos de cartas: entre 10 e 20 pontos por carta.
pub proof fn lema_limites_pontos_cartas(s: Seq<Carta>)
    ensures
        10 * s.len() <= pontos_cartas(s) <= 20 * s.len(),
    decreases s.len(),
{
    if s.len() > 0 {
        lema_limites_pontos_cartas(s.drop_last());
    }
}

/// Limites dos pontos de uma mesa: nao-negativos e no maximo 120 pontos por
/// carta presente (20 da carta mais o bonus diluido pelo minimo de 3 cartas).
pub proof fn lema_limites_pontos_mesa(js: Seq<DetalheJogo>)
    requires
        forall|i: int| 0 <= i < js.len() ==> #[trigger] js[i].cartas@.len() >= 3,
    ensures
        cartas_mesa(js) >= 0,
        0 <= pontos_mesa(js) <= 120 * cartas_mesa(js),
    decreases js.len(),
{
    if js.len() > 0 {
        assert(forall|i: int|
            0 <= i < js.len() - 1 ==> #[trigger] js.drop_last()[i].cartas@.len() >= 3);
        lema_limites_pontos_mesa(js.drop_last());
        lema_limites_pontos_cartas(js.last().cartas@);
        assert(js[js.len() - 1].cartas@.len() >= 3);
    }
}

/// O total de cartas de uma mesa nunca e negativo.
pub proof fn lema_limites_pontos_mesa_simples(js: Seq<DetalheJogo>)
    ensures
        cartas_mesa(js) >= 0,
    decreases js.len(),
{
    if js.len() > 0 {
        lema_limites_pontos_mesa_simples(js.drop_last());
    }
}

/// Limites do saldo parcial de um time, dado um teto de cartas em jogo.
pub proof fn lema_limites_parcial(js: Seq<DetalheJogo>, tres: Seq<Carta>)
    requires
        forall|i: int| 0 <= i < js.len() ==> #[trigger] js[i].cartas@.len() >= 3,
        cartas_mesa(js) <= 108,
        tres.len() <= 108,
    ensures
        -10800 <= parcial(js, tres) <= 23760,
{
    lema_limites_pontos_mesa(js);
}

/// Soma os pontos de um grupo de cartas.
pub fn somar_pontos(cartas: &[Carta]) -> (r: i32)
    requires
        cartas@.len() <= 1000,
    ensures
        r as int == pontos_cartas(cartas@),
{
    proof {
        lema_limites_pontos_cartas(cartas@);
    }
    let n = cartas.len();
    let mut soma: i32 = 0;
    let mut i: usize = 0;
    while i < n
        invariant
            n == cartas@.len(),
            n <= 1000,
            i <= n,
            soma as int == pontos_cartas(cartas@.take(i as int)),
            0 <= soma as int <= 20 * i,
        decreases n - i,
    {
        proof {
            assert(cartas@.take(i + 1).drop_last() =~= cartas@.take(i as int));
            assert(cartas@.take(i + 1).last() == cartas@[i as int]);
            lema_limites_pontos_cartas(cartas@.take(i as int));
        }
        soma = soma + cartas[i].pontos();
        i += 1;
    }
    proof {
        assert(cartas@.take(n as int) =~= cartas@);
    }
    soma
}

} // verus!
