//! O estado autoritativo de uma partida: baralho, maos, lixo, mesas dos dois
//! times, reservas de 3 vermelhos, placar, turno e as flags de turno.
//!
//! O invariante `bem_formado` vale apos cada acao aceita: 4 maos, turno
//! valido, mesas so com jogos legais sob ids crescentes, e exatamente 108
//! cartas em circulacao (a conservacao do baralho).

use crate::acoes::DetalheJogo;
use crate::baralho::{tres_vermelho, Baralho, Carta, Naipe, Valor};
use crate::pontos::{
    canastra_real, cartas_mesa, lema_limites_parcial, lema_limites_pontos_cartas, parcial,
    pontos_cartas, pontos_mesa, pontos_tres, tem_canastra_real,
};
use crate::regras::jogo_valido;
use vstd::prelude::*;

verus! {

broadcast use vstd::seq_lib::group_to_multiset_ensures, vstd::multiset::group_multiset_axioms;

/// O estado global de uma partida.
///
/// As maos nao sao mantidas ordenadas: o modelo de dados trata a ordenacao
/// da mao como convencao de exibicao, nao requisito de corretude, e os
/// contratos falam das maos como multiconjuntos. Quem exibe ordena na hora
/// (`visual::organizar_para_exibicao`).
#[derive(Debug, Clone, PartialEq)]
pub struct EstadoJogo {
    pub baralho: Baralho,
    pub maos: Vec<Vec<Carta>>,
    pub turno_atual: u32,
    pub lixo: Vec<Carta>,
    pub jogos_time_a: Vec<DetalheJogo>,
    pub jogos_time_b: Vec<DetalheJogo>,
    pub pontuacao_a: i32,
    pub pontuacao_b: i32,
    pub rodada: u32,
    pub tres_vermelhos_time_a: Vec<Carta>,
    pub tres_vermelhos_time_b: Vec<Carta>,
    pub pegou_lixo_nesta_rodada: bool,
    pub partida_encerrada: bool,
    pub proximo_id_jogo: u32,
    pub baralho_acabou_nesta_rodada: bool,
    pub comprou_nesta_rodada: bool,
}

/// Total de cartas nas quatro maos.
pub open spec fn cartas_maos(maos: Seq<Vec<Carta>>) -> int
    decreases maos.len(),
{
    if maos.len() == 0 {
        0
    } else {
        cartas_maos(maos.drop_last()) + maos.last()@.len()
    }
}

/// Total de cartas em circulacao: monte, maos, lixo, mesas e reservas.
pub open spec fn total_cartas(e: EstadoJogo) -> int {
    e.baralho.cartas@.len() + cartas_maos(e.maos@) + e.lixo@.len() + cartas_mesa(e.jogos_time_a@)
        + cartas_mesa(e.jogos_time_b@) + e.tres_vermelhos_time_a@.len()
        + e.tres_vermelhos_time_b@.len()
}

/// Uma mesa bem formada: todo jogo e legal, os ids crescem estritamente e
/// ficam abaixo do proximo id a ser gerado.
pub open spec fn mesa_valida(js: Seq<DetalheJogo>, prox: int) -> bool {
    &&& forall|i: int| 0 <= i < js.len() ==> jogo_valido(#[trigger] js[i].cartas@)
    &&& forall|i: int, j: int| 0 <= i < j < js.len() ==> js[i].id < js[j].id
    &&& forall|i: int| 0 <= i < js.len() ==> (#[trigger] js[i].id) < prox
}

/// O invariante do estado: estrutura correta e conservacao das 108 cartas.
pub open spec fn bem_formado(e: EstadoJogo) -> bool {
    &&& e.maos@.len() == 4
    &&& e.turno_atual < 4
    &&& mesa_valida(e.jogos_time_a@, e.proximo_id_jogo as int)
    &&& mesa_valida(e.jogos_time_b@, e.proximo_id_jogo as int)
    &&& total_cartas(e) == 108
}

/// Placar dentro da faixa segura para somar o saldo de mais uma rodada.
pub open spec fn placar_seguro(e: EstadoJogo) -> bool {
    &&& -1000000000 <= e.pontuacao_a <= 1000000000
    &&& -1000000000 <= e.pontuacao_b <= 1000000000
}

/// A mesa do time de um jogador (times 0 e 1, pela paridade do indice).
pub open spec fn mesa_time(e: EstadoJogo, time: int) -> Seq<DetalheJogo> {
    if time == 0 {
        e.jogos_time_a@
    } else {
        e.jogos_time_b@
    }
}

/// A reserva de 3 vermelhos do time.
pub open spec fn tres_time(e: EstadoJogo, time: int) -> Seq<Carta> {
    if time == 0 {
        e.tres_vermelhos_time_a@
    } else {
        e.tres_vermelhos_time_b@
    }
}

/// O placar do time (0 ou 1).
pub open spec fn placar_time(e: EstadoJogo, time: int) -> int {
    if time == 0 {
        e.pontuacao_a as int
    } else {
        e.pontuacao_b as int
    }
}

/// Penalidade de fim de rodada de um time: pontos das cartas que sobraram
/// nas duas maos do time.
pub open spec fn penalidade_time(maos: Seq<Vec<Carta>>, time: int) -> int {
    pontos_cartas(maos[time]@) + pontos_cartas(maos[time + 2]@)
}

/// Alguma mao ficou vazia (alguem bateu)?
pub open spec fn alguma_mao_vazia(maos: Seq<Vec<Carta>>) -> bool {
    exists|i: int| 0 <= i < maos.len() && #[trigger] maos[i]@.len() == 0
}

/// Placar dos dois times dentro de uma faixa simetrica dada.
pub open spec fn placar_dentro(e: EstadoJogo, m: int) -> bool {
    &&& -m <= e.pontuacao_a <= m
    &&& -m <= e.pontuacao_b <= m
}

/// Limite de pontos da primeira descida de um time, dado o seu placar.
pub open spec fn limite_abertura(p: int) -> int {
    if p < 2500 {
        80
    } else {
        100
    }
}

/// As canastras de uma mesa: os jogos com 7 ou mais cartas, na ordem.
pub open spec fn canastras_de(js: Seq<DetalheJogo>) -> Seq<Seq<Carta>>
    decreases js.len(),
{
    if js.len() == 0 {
        Seq::empty()
    } else {
        let r = canastras_de(js.drop_last());
        if js.last().cartas@.len() >= 7 {
            r.push(js.last().cartas@)
        } else {
            r
        }
    }
}

/// Cada jogo de uma mesa cabe no total de cartas da mesa.
pub proof fn lema_mesa_limites(js: Seq<DetalheJogo>)
    ensures
        cartas_mesa(js) >= 0,
        forall|i: int| 0 <= i < js.len() ==> #[trigger] js[i].cartas@.len() <= cartas_mesa(js),
    decreases js.len(),
{
    if js.len() > 0 {
        lema_mesa_limites(js.drop_last());
        assert(forall|i: int|
            0 <= i < js.len() - 1 ==> #[trigger] js[i].cartas@ == js.drop_last()[i].cartas@);
    }
}

/// Trocar o jogo `p` muda o total de cartas da mesa exatamente pela
/// diferenca entre a formacao nova e a antiga.
pub proof fn lema_cartas_mesa_troca(js: Seq<DetalheJogo>, p: int, novo: DetalheJogo)
    requires
        0 <= p < js.len(),
    ensures
        cartas_mesa(js.update(p, novo)) == cartas_mesa(js) - js[p].cartas@.len()
            + novo.cartas@.len(),
    decreases js.len(),
{
    let m2 = js.update(p, novo);
    if p == js.len() - 1 {
        assert(m2.drop_last() =~= js.drop_last());
    } else {
        assert(m2.drop_last() =~= js.drop_last().update(p, novo));
        assert(m2.last() == js.last());
        lema_cartas_mesa_troca(js.drop_last(), p, novo);
    }
}

/// Mesas com os mesmos tamanhos de jogos somam as mesmas cartas.
pub proof fn lema_cartas_mesa_congruente(a: Seq<DetalheJogo>, b: Seq<DetalheJogo>)
    requires
        a.len() == b.len(),
        forall|i: int| 0 <= i < a.len() ==> (#[trigger] a[i]).cartas@.len() == b[i].cartas@.len(),
    ensures
        cartas_mesa(a) == cartas_mesa(b),
    decreases a.len(),
{
    if a.len() > 0 {
        assert(forall|i: int|
            0 <= i < a.len() - 1 ==> (#[trigger] a.drop_last()[i]).cartas@.len()
                == b.drop_last()[i].cartas@.len()) by {
            assert(forall|i: int| 0 <= i < a.len() - 1 ==> a.drop_last()[i] == #[trigger] a[i]);
            assert(forall|i: int| 0 <= i < b.len() - 1 ==> b.drop_last()[i] == #[trigger] b[i]);
        }
        lema_cartas_mesa_congruente(a.drop_last(), b.drop_last());
    }
}

/// Um prefixo de mesa nunca tem mais cartas que a mesa inteira.
pub proof fn lema_cartas_mesa_prefixo(js: Seq<DetalheJogo>, i: int)
    requires
        0 <= i <= js.len(),
    ensures
        cartas_mesa(js.take(i)) <= cartas_mesa(js),
    decreases js.len() - i,
{
    if i < js.len() {
        assert(js.take(i + 1).drop_last() =~= js.take(i));
        assert(js.take(i + 1).last() == js[i]);
        lema_cartas_mesa_prefixo(js, i + 1);
    } else {
        assert(js.take(i) =~= js);
    }
}

/// Algum dos jogos proposto e uma canastra limpa pronta (7+ sem coringa)?
pub open spec fn algum_novo_real(js: Seq<Vec<Carta>>) -> bool {
    exists|i: int| 0 <= i < js.len() && canastra_real(#[trigger] js[i]@)
}

/// A decisao de poder bater: proibido apos pegar o lixo no turno, e o time
/// precisa de uma canastra limpa na mesa ou entre os jogos que baixa agora.
pub open spec fn pode_bater_espec(e: EstadoJogo, time: int, novos: Seq<Vec<Carta>>) -> Option<
    crate::acoes::Recusa,
> {
    if e.pegou_lixo_nesta_rodada {
        Some(crate::acoes::Recusa::BatidaAposLixo)
    } else if !(tem_canastra_real(mesa_time(e, time)) || algum_novo_real(novos)) {
        Some(crate::acoes::Recusa::SemCanastraReal)
    } else {
        None
    }
}

/// Quantos 3 vermelhos ha na sequencia.
pub open spec fn conta_tres_vermelhos(s: Seq<Carta>) -> int
    decreases s.len(),
{
    if s.len() == 0 {
        0
    } else {
        conta_tres_vermelhos(s.drop_last()) + if tres_vermelho(s.last()) {
            1int
        } else {
            0int
        }
    }
}

/// Um passo de consumo pela frente: o multiconjunto de `skip(l)` e o de
/// `skip(l + 1)` mais o elemento `s[l]`.
pub proof fn lema_skip_frente(s: Seq<Carta>, l: int)
    requires
        0 <= l < s.len(),
    ensures
        s.skip(l).to_multiset() =~= s.skip(l + 1).to_multiset().insert(s[l]),
{
    assert(s.skip(l).remove(0) =~= s.skip(l + 1));
    assert(s.skip(l)[0] == s[l]);
    assert(s.skip(l).remove(0).to_multiset() =~= s.skip(l).to_multiset().remove(s[l]));
    assert(s.skip(l).contains(s[l]));
    assert(s.skip(l).to_multiset().count(s[l]) > 0);
    assert(s.skip(l).to_multiset() =~= s.skip(l + 1).to_multiset().insert(s[l]));
}

/// Mover um elemento de um multiconjunto para o outro preserva a soma.
pub proof fn lema_transferencia(a: vstd::multiset::Multiset<Carta>, b: vstd::multiset::Multiset<Carta>, c: Carta)
    requires
        a.count(c) > 0,
    ensures
        a.remove(c).add(b.insert(c)) =~= a.add(b),
{
}

/// A contagem de 3 vermelhos nunca e negativa.
pub proof fn lema_conta_tres_nao_negativa(s: Seq<Carta>)
    ensures
        conta_tres_vermelhos(s) >= 0,
    decreases s.len(),
{
    if s.len() > 0 {
        lema_conta_tres_nao_negativa(s.drop_last());
    }
}

/// Remover uma carta ajusta a contagem de 3 vermelhos exatamente pela carta.
pub proof fn lema_conta_tres_remove(s: Seq<Carta>, p: int)
    requires
        0 <= p < s.len(),
    ensures
        conta_tres_vermelhos(s.remove(p)) == conta_tres_vermelhos(s) - if tres_vermelho(s[p]) {
            1int
        } else {
            0int
        },
    decreases s.len(),
{
    if p == s.len() - 1 {
        assert(s.remove(p) =~= s.drop_last());
    } else {
        assert(s.remove(p).drop_last() =~= s.drop_last().remove(p));
        assert(s.remove(p).last() == s.last());
        lema_conta_tres_remove(s.drop_last(), p);
    }
}

/// Acrescentar uma carta ajusta a contagem de 3 vermelhos pela carta.
pub proof fn lema_conta_tres_push(s: Seq<Carta>, c: Carta)
    ensures
        conta_tres_vermelhos(s.push(c)) == conta_tres_vermelhos(s) + if tres_vermelho(c) {
            1int
        } else {
            0int
        },
{
    assert(s.push(c).drop_last() =~= s);
    assert(s.push(c).last() == c);
}

/// A contagem de 3 vermelhos e uma funcao do multiconjunto: e a soma das
/// ocorrencias do 3 de Copas e do 3 de Ouros.
pub proof fn lema_conta_tres_soma(s: Seq<Carta>)
    ensures
        conta_tres_vermelhos(s) == s.to_multiset().count(
            Carta { naipe: Naipe::Copas, valor: Valor::Tres },
        ) + s.to_multiset().count(Carta { naipe: Naipe::Ouros, valor: Valor::Tres }),
    decreases s.len(),
{
    let tc = Carta { naipe: Naipe::Copas, valor: Valor::Tres };
    let to = Carta { naipe: Naipe::Ouros, valor: Valor::Tres };
    if s.len() == 0 {
        assert(s.to_multiset().count(tc) == 0);
        assert(s.to_multiset().count(to) == 0);
    } else {
        lema_conta_tres_soma(s.drop_last());
        assert(s =~= s.drop_last().push(s.last()));
        assert(s.to_multiset() =~= s.drop_last().to_multiset().insert(s.last()));
        assert(tres_vermelho(s.last()) <==> (s.last() == tc || s.last() == to));
    }
}

/// Sequencias com o mesmo multiconjunto tem a mesma contagem de 3 vermelhos.
pub proof fn lema_conta_tres_congruente(a: Seq<Carta>, b: Seq<Carta>)
    requires
        a.to_multiset() == b.to_multiset(),
    ensures
        conta_tres_vermelhos(a) == conta_tres_vermelhos(b),
{
    lema_conta_tres_soma(a);
    lema_conta_tres_soma(b);
}

/// Nos primeiros `i` postos do baralho inicial ha um 3 vermelho para cada
/// um dos postos 2, 15, 56 e 69 ja percorridos (o 3 de Copas e o de Ouros,
/// em cada um dos dois meios-baralhos).
pub proof fn lema_conta_tres_prefixo_inicial(i: int)
    requires
        0 <= i <= 108,
    ensures
        conta_tres_vermelhos(crate::baralho::baralho_inicial().take(i)) == (if i > 2 {
            1int
        } else {
            0int
        }) + (if i > 15 {
            1int
        } else {
            0int
        }) + (if i > 56 {
            1int
        } else {
            0int
        }) + (if i > 69 {
            1int
        } else {
            0int
        }),
    decreases i,
{
    let b = crate::baralho::baralho_inicial();
    if i == 0 {
        assert(b.take(0) =~= Seq::<Carta>::empty());
    } else {
        lema_conta_tres_prefixo_inicial(i - 1);
        assert(b.take(i).drop_last() =~= b.take(i - 1));
        assert(b.take(i).last() == b[i - 1]);
        assert(tres_vermelho(b[i - 1]) <==> (i - 1 == 2 || i - 1 == 15 || i - 1 == 56 || i - 1
            == 69));
    }
}

/// O baralho inicial contem exatamente 4 tres vermelhos.
pub proof fn lema_conta_tres_inicial()
    ensures
        conta_tres_vermelhos(crate::baralho::baralho_inicial()) == 4,
{
    lema_conta_tres_prefixo_inicial(108);
    assert(crate::baralho::baralho_inicial().take(108) =~= crate::baralho::baralho_inicial());
}

/// Com quatro maos, o total e a soma das quatro.
pub proof fn lema_cartas_maos_quatro(maos: Seq<Vec<Carta>>)
    requires
        maos.len() == 4,
    ensures
        cartas_maos(maos) == maos[0]@.len() + maos[1]@.len() + maos[2]@.len() + maos[3]@.len(),
{
    let m3 = maos.drop_last();
    let m2 = m3.drop_last();
    let m1 = m2.drop_last();
    let m0 = m1.drop_last();
    assert(m0 =~= Seq::<Vec<Carta>>::empty());
    assert(maos.last() == maos[3]);
    assert(m3.last() == maos[2]);
    assert(m2.last() == maos[1]);
    assert(m1.last() == maos[0]);
    assert(cartas_maos(m1) == cartas_maos(m0) + maos[0]@.len());
    assert(cartas_maos(m2) == cartas_maos(m1) + maos[1]@.len());
    assert(cartas_maos(m3) == cartas_maos(m2) + maos[2]@.len());
    assert(cartas_maos(maos) == cartas_maos(m3) + maos[3]@.len());
}

/// Maos todas vazias somam zero cartas.
pub proof fn lema_cartas_maos_vazias(maos: Seq<Vec<Carta>>)
    requires
        forall|i: int| 0 <= i < maos.len() ==> #[trigger] maos[i]@.len() == 0,
    ensures
        cartas_maos(maos) == 0,
    decreases maos.len(),
{
    if maos.len() > 0 {
        assert(forall|i: int|
            0 <= i < maos.len() - 1 ==> #[trigger] maos.drop_last()[i]@ == maos[i]@);
        lema_cartas_maos_vazias(maos.drop_last());
    }
}

/// As contagens por mao nunca superam o total das maos.
pub proof fn lema_maos_limites(maos: Seq<Vec<Carta>>)
    ensures
        cartas_maos(maos) >= 0,
        forall|i: int| 0 <= i < maos.len() ==> #[trigger] maos[i]@.len() <= cartas_maos(maos),
    decreases maos.len(),
{
    if maos.len() > 0 {
        lema_maos_limites(maos.drop_last());
        assert(forall|i: int|
            0 <= i < maos.len() - 1 ==> #[trigger] maos[i]@ == maos.drop_last()[i]@);
    }
}

/// Trocar a mao `j` muda o total das maos exatamente pela diferenca.
pub proof fn lema_cartas_maos_troca(maos: Seq<Vec<Carta>>, j: int, nova: Vec<Carta>)
    requires
        0 <= j < maos.len(),
    ensures
        cartas_maos(maos.update(j, nova)) == cartas_maos(maos) - maos[j]@.len() + nova@.len(),
    decreases maos.len(),
{
    let m2 = maos.update(j, nova);
    if j == maos.len() - 1 {
        assert(m2.drop_last() =~= maos.drop_last());
    } else {
        assert(m2.drop_last() =~= maos.drop_last().update(j, nova));
        lema_cartas_maos_troca(maos.drop_last(), j, nova);
    }
}

/// Lei da conservacao do baralho: num estado bem formado, monte, maos,
/// lixo, mesas e reservas somam exatamente as 108 cartas da partida. Como
/// toda acao preserva `bem_formado`, a soma vale apos cada acao aceita.
pub proof fn lei_conservacao_cartas(e: EstadoJogo)
    requires
        bem_formado(e),
    ensures
        e.baralho.cartas@.len() + cartas_maos(e.maos@) + e.lixo@.len() + cartas_mesa(
            e.jogos_time_a@,
        ) + cartas_mesa(e.jogos_time_b@) + e.tres_vermelhos_time_a@.len()
            + e.tres_vermelhos_time_b@.len() == 108,
{
}

/// Lei do invariante de mesa: num estado bem formado, cada jogo baixado
/// satisfaz por si so o validador de jogos; em particular, nenhum jogo na
/// mesa carrega mais de um coringa.
pub proof fn lei_mesas_validas(e: EstadoJogo)
    requires
        bem_formado(e),
    ensures
        forall|i: int|
            0 <= i < e.jogos_time_a@.len() ==> jogo_valido(#[trigger] e.jogos_time_a@[i].cartas@),
        forall|i: int|
            0 <= i < e.jogos_time_b@.len() ==> jogo_valido(#[trigger] e.jogos_time_b@[i].cartas@),
        forall|i: int|
            0 <= i < e.jogos_time_a@.len() ==> crate::regras::conta_coringas(
                #[trigger] e.jogos_time_a@[i].cartas@,
            ) <= 1,
        forall|i: int|
            0 <= i < e.jogos_time_b@.len() ==> crate::regras::conta_coringas(
                #[trigger] e.jogos_time_b@[i].cartas@,
            ) <= 1,
{
    assert forall|i: int|
        0 <= i < e.jogos_time_a@.len() implies crate::regras::conta_coringas(
        #[trigger] e.jogos_time_a@[i].cartas@,
    ) <= 1 by {
        assert(jogo_valido(e.jogos_time_a@[i].cartas@));
        crate::regras::lei_limite_coringas(e.jogos_time_a@[i].cartas@);
    }
    assert forall|i: int|
        0 <= i < e.jogos_time_b@.len() implies crate::regras::conta_coringas(
        #[trigger] e.jogos_time_b@[i].cartas@,
    ) <= 1 by {
        assert(jogo_valido(e.jogos_time_b@[i].cartas@));
        crate::regras::lei_limite_coringas(e.jogos_time_b@[i].cartas@);
    }
}

/// Num estado bem formado cada componente respeita o teto de 108 cartas.
pub proof fn lema_limites_componentes(e: EstadoJogo)
    requires
        bem_formado(e),
    ensures
        e.baralho.cartas@.len() <= 108,
        e.lixo@.len() <= 108,
        cartas_mesa(e.jogos_time_a@) <= 108,
        cartas_mesa(e.jogos_time_b@) <= 108,
        e.tres_vermelhos_time_a@.len() <= 108,
        e.tres_vermelhos_time_b@.len() <= 108,
        cartas_maos(e.maos@) >= 0,
        cartas_mesa(e.jogos_time_a@) >= 0,
        cartas_mesa(e.jogos_time_b@) >= 0,
        forall|i: int| 0 <= i < 4 ==> #[trigger] e.maos@[i]@.len() <= 108,
{
    lema_maos_limites(e.maos@);
    crate::pontos::lema_limites_pontos_mesa_simples(e.jogos_time_a@);
    crate::pontos::lema_limites_pontos_mesa_simples(e.jogos_time_b@);
}

impl EstadoJogo {
    /// Cria uma partida nova: baralho completo por abrir, quatro maos
    /// vazias, mesas limpas, placar zerado.
    pub fn new() -> (r: EstadoJogo)
        ensures
            bem_formado(r),
            placar_seguro(r),
            r.baralho.cartas@ == crate::baralho::baralho_inicial(),
            r.baralho.cartas@.len() == 108,
            r.maos@.len() == 4,
            forall|i: int| 0 <= i < 4 ==> #[trigger] r.maos@[i]@.len() == 0,
            r.turno_atual == 0,
            r.lixo@.len() == 0,
            r.jogos_time_a@.len() == 0,
            r.jogos_time_b@.len() == 0,
            r.pontuacao_a == 0,
            r.pontuacao_b == 0,
            r.rodada == 0,
            r.tres_vermelhos_time_a@.len() == 0,
            r.tres_vermelhos_time_b@.len() == 0,
            !r.pegou_lixo_nesta_rodada,
            !r.partida_encerrada,
            r.proximo_id_jogo == 0,
            !r.baralho_acabou_nesta_rodada,
            !r.comprou_nesta_rodada,
    {
        let mut maos: Vec<Vec<Carta>> = Vec::new();
        maos.push(Vec::new());
        maos.push(Vec::new());
        maos.push(Vec::new());
        maos.push(Vec::new());
        let r = EstadoJogo {
            baralho: Baralho::new(),
            maos,
            turno_atual: 0,
            lixo: Vec::new(),
            jogos_time_a: Vec::new(),
            jogos_time_b: Vec::new(),
            pontuacao_a: 0,
            pontuacao_b: 0,
            rodada: 0,
            tres_vermelhos_time_a: Vec::new(),
            tres_vermelhos_time_b: Vec::new(),
            pegou_lixo_nesta_rodada: false,
            partida_encerrada: false,
            proximo_id_jogo: 0,
            baralho_acabou_nesta_rodada: false,
            comprou_nesta_rodada: false,
        };
        proof {
            lema_cartas_maos_vazias(r.maos@);
        }
        r
    }

    /// O time tem pelo menos uma canastra limpa na mesa (7+ cartas sem
    /// coringa)? E a condicao para poder bater e para valorizar os 3
    /// vermelhos.
    pub fn conferir_real(&self, id_jogador: usize) -> (r: bool)
        ensures
            r == tem_canastra_real(mesa_time(*self, (id_jogador % 2) as int)),
    {
        let jogos_do_time = if id_jogador % 2 == 0 {
            &self.jogos_time_a
        } else {
            &self.jogos_time_b
        };
        let ghost js = jogos_do_time@;
        let n = jogos_do_time.len();
        let mut i: usize = 0;
        while i < n
            invariant
                n == js.len(),
                jogos_do_time@ == js,
                js == mesa_time(*self, (id_jogador % 2) as int),
                i <= n,
                forall|k: int| 0 <= k < i ==> !canastra_real(#[trigger] js[k].cartas@),
            decreases n - i,
        {
            if jogos_do_time[i].cartas.len() >= 7 {
                if !crate::regras::tem_coringa(jogos_do_time[i].cartas.as_slice()) {
                    proof {
                        assert(canastra_real(js[i as int].cartas@));
                    }
                    return true;
                }
            }
            i += 1;
        }
        false
    }

    /// As canastras do time do jogador: referencia a cada jogo de 7+ cartas.
    pub fn obter_canastras(&self, id_jogador: usize) -> (r: Vec<&Vec<Carta>>)
        ensures
            r@.len() == canastras_de(mesa_time(*self, (id_jogador % 2) as int)).len(),
            forall|i: int|
                0 <= i < r@.len() ==> #[trigger] r@[i]@ == canastras_de(
                    mesa_time(*self, (id_jogador % 2) as int),
                )[i],
    {
        let jogos_do_time = if id_jogador % 2 == 0 {
            &self.jogos_time_a
        } else {
            &self.jogos_time_b
        };
        let ghost js = jogos_do_time@;
        let n = jogos_do_time.len();
        let mut canastras: Vec<&Vec<Carta>> = Vec::new();
        let mut i: usize = 0;
        while i < n
            invariant
                n == js.len(),
                jogos_do_time@ == js,
                js == mesa_time(*self, (id_jogador % 2) as int),
                i <= n,
                canastras@.len() == canastras_de(js.take(i as int)).len(),
                forall|k: int|
                    0 <= k < canastras@.len() ==> #[trigger] canastras@[k]@ == canastras_de(
                        js.take(i as int),
                    )[k],
            decreases n - i,
        {
            proof {
                assert(js.take(i + 1).drop_last() =~= js.take(i as int));
                assert(js.take(i + 1).last() == js[i as int]);
            }
            if jogos_do_time[i].cartas.len() >= 7 {
                canastras.push(&jogos_do_time[i].cartas);
            }
            i += 1;
        }
        proof {
            assert(js.take(n as int) =~= js);
        }
        canastras
    }

    /// Pontos que a primeira descida do time precisa alcancar: 80 ate o
    /// placar do time chegar a 2500, 100 dai em diante.
    pub(crate) fn pontos_para_descer(&self, id_jogador: u32) -> (r: i32)
        ensures
            r as int == limite_abertura(
                if id_jogador % 2 == 0 {
                    self.pontuacao_a as int
                } else {
                    self.pontuacao_b as int
                },
            ),
    {
        if id_jogador % 2 == 0 {
            if self.pontuacao_a < 2500 {
                80
            } else {
                100
            }
        } else if self.pontuacao_b < 2500 {
            80
        } else {
            100
        }
    }

    /// Saldo de fim de rodada de um time: 3 vermelhos valorizados pela
    /// presenca de canastra limpa, mais cartas e bonus de cada jogo da mesa.
    fn calcular_pontuacao_parcial(jogos: &Vec<DetalheJogo>, tres: &[Carta]) -> (r: i32)
        requires
            forall|i: int| 0 <= i < jogos@.len() ==> #[trigger] jogos@[i].cartas@.len() >= 3,
            cartas_mesa(jogos@) <= 108,
            tres@.len() <= 108,
        ensures
            r as int == parcial(jogos@, tres@),
    {
        let ghost js = jogos@;
        let n = jogos.len();
        let mut soma: i32 = 0;
        let mut tem_real: bool = false;
        let mut i: usize = 0;
        while i < n
            invariant
                n == js.len(),
                jogos@ == js,
                forall|k: int| 0 <= k < js.len() ==> #[trigger] js[k].cartas@.len() >= 3,
                cartas_mesa(js) <= 108,
                i <= n,
                soma as int == pontos_mesa(js.take(i as int)),
                0 <= soma as int <= 120 * cartas_mesa(js.take(i as int)),
                cartas_mesa(js.take(i as int)) <= 108,
                tem_real == tem_canastra_real(js.take(i as int)),
            decreases n - i,
        {
            let ghost t = js.take(i + 1);
            let ghost p = js.take(i as int);
            proof {
                assert(t.drop_last() =~= p);
                assert(t.last() == js[i as int]);
                lema_cartas_mesa_prefixo(js, i + 1);
                assert(forall|k: int| 0 <= k < t.len() ==> #[trigger] t[k] == js[k]);
                assert(forall|k: int| 0 <= k < p.len() ==> #[trigger] p[k] == js[k]);
                lema_mesa_limites(js);
                crate::pontos::lema_limites_pontos_mesa(p);
                lema_limites_pontos_cartas(js[i as int].cartas@);
            }
            let jogo = &jogos[i].cartas;
            let pontos_jogo = crate::pontos::somar_pontos(jogo.as_slice());
            let com_coringa = crate::regras::tem_coringa(jogo.as_slice());
            let bonus: i32 = if jogo.len() >= 7 {
                if com_coringa {
                    100
                } else {
                    300
                }
            } else {
                0
            };
            if jogo.len() >= 7 && !com_coringa {
                proof {
                    assert(canastra_real(t[i as int].cartas@));
                }
                tem_real = true;
            }
            proof {
                if tem_canastra_real(p) {
                    let w = choose|k: int| 0 <= k < p.len() && canastra_real(p[k].cartas@);
                    assert(canastra_real(t[w].cartas@));
                }
                if tem_canastra_real(t) && !canastra_real(t[i as int].cartas@) {
                    let w = choose|k: int| 0 <= k < t.len() && canastra_real(t[k].cartas@);
                    assert(canastra_real(p[w].cartas@));
                }
            }
            soma = soma + pontos_jogo + bonus;
            i += 1;
        }
        proof {
            assert(js.take(n as int) =~= js);
        }
        let qtd_3: i32 = tres.len() as i32;
        let pontos_3: i32 = if tem_real {
            qtd_3 * 100
        } else {
            -(qtd_3 * 100)
        };
        pontos_3 + soma
    }

    /// Soma ao placar persistente o saldo parcial de cada time.
    pub fn contar_pontos(&mut self)
        requires
            bem_formado(*old(self)),
            placar_dentro(*old(self), 1000000500),
        ensures
            final(self).pontuacao_a as int == old(self).pontuacao_a + parcial(
                old(self).jogos_time_a@,
                old(self).tres_vermelhos_time_a@,
            ),
            final(self).pontuacao_b as int == old(self).pontuacao_b + parcial(
                old(self).jogos_time_b@,
                old(self).tres_vermelhos_time_b@,
            ),
            *final(self) == (EstadoJogo {
                pontuacao_a: final(self).pontuacao_a,
                pontuacao_b: final(self).pontuacao_b,
                ..*old(self)
            }),
            bem_formado(*final(self)),
            placar_dentro(*final(self), 1000024260),
    {
        proof {
            lema_limites_componentes(*self);
            assert(forall|i: int|
                0 <= i < self.jogos_time_a@.len() ==> #[trigger] self.jogos_time_a@[i].cartas@.len()
                    >= 3);
            assert(forall|i: int|
                0 <= i < self.jogos_time_b@.len() ==> #[trigger] self.jogos_time_b@[i].cartas@.len()
                    >= 3);
            lema_limites_parcial(self.jogos_time_a@, self.tres_vermelhos_time_a@);
            lema_limites_parcial(self.jogos_time_b@, self.tres_vermelhos_time_b@);
        }
        let saldo_a = Self::calcular_pontuacao_parcial(
            &self.jogos_time_a,
            self.tres_vermelhos_time_a.as_slice(),
        );
        let saldo_b = Self::calcular_pontuacao_parcial(
            &self.jogos_time_b,
            self.tres_vermelhos_time_b.as_slice(),
        );
        self.pontuacao_a = self.pontuacao_a + saldo_a;
        self.pontuacao_b = self.pontuacao_b + saldo_b;
    }

    /// Fecha a contagem da rodada: saldo das mesas e, se alguem bateu,
    /// a penalidade das cartas que restaram em cada mao.
    pub(crate) fn contar_pontos_final(&mut self)
        requires
            bem_formado(*old(self)),
            placar_dentro(*old(self), 1000000500),
        ensures
            final(self).pontuacao_a as int == old(self).pontuacao_a + parcial(
                old(self).jogos_time_a@,
                old(self).tres_vermelhos_time_a@,
            ) - if alguma_mao_vazia(old(self).maos@) {
                penalidade_time(old(self).maos@, 0)
            } else {
                0
            },
            final(self).pontuacao_b as int == old(self).pontuacao_b + parcial(
                old(self).jogos_time_b@,
                old(self).tres_vermelhos_time_b@,
            ) - if alguma_mao_vazia(old(self).maos@) {
                penalidade_time(old(self).maos@, 1)
            } else {
                0
            },
            *final(self) == (EstadoJogo {
                pontuacao_a: final(self).pontuacao_a,
                pontuacao_b: final(self).pontuacao_b,
                ..*old(self)
            }),
            bem_formado(*final(self)),
            placar_dentro(*final(self), 1000030000),
    {
        proof {
            lema_limites_componentes(*self);
            lema_limites_pontos_cartas(self.maos@[0]@);
            lema_limites_pontos_cartas(self.maos@[1]@);
            lema_limites_pontos_cartas(self.maos@[2]@);
            lema_limites_pontos_cartas(self.maos@[3]@);
        }
        self.contar_pontos();
        let deve_penalizar = self.maos[0].is_empty() || self.maos[1].is_empty()
            || self.maos[2].is_empty() || self.maos[3].is_empty();
        proof {
            if !deve_penalizar {
                assert(!alguma_mao_vazia(self.maos@)) by {
                    if alguma_mao_vazia(self.maos@) {
                        let w = choose|i: int|
                            0 <= i < self.maos@.len() && #[trigger] self.maos@[i]@.len() == 0;
                        assert(w == 0 || w == 1 || w == 2 || w == 3);
                    }
                }
            }
        }
        if deve_penalizar {
            let pen_a = crate::pontos::somar_pontos(self.maos[0].as_slice())
                + crate::pontos::somar_pontos(self.maos[2].as_slice());
            let pen_b = crate::pontos::somar_pontos(self.maos[1].as_slice())
                + crate::pontos::somar_pontos(self.maos[3].as_slice());
            self.pontuacao_a = self.pontuacao_a - pen_a;
            self.pontuacao_b = self.pontuacao_b - pen_b;
        }
    }

    /// Registra a batida do jogador: bonus de 100 pontos ao time, rodada
    /// encerrada e contagem final com penalidade das maos restantes.
    pub fn batida(&mut self, id_jogador: u32)
        requires
            bem_formado(*old(self)),
            placar_seguro(*old(self)),
        ensures
            final(self).partida_encerrada,
            final(self).pontuacao_a as int == old(self).pontuacao_a + (if id_jogador % 2 == 0 {
                100int
            } else {
                0int
            }) + parcial(old(self).jogos_time_a@, old(self).tres_vermelhos_time_a@) - if alguma_mao_vazia(
                old(self).maos@,
            ) {
                penalidade_time(old(self).maos@, 0)
            } else {
                0
            },
            final(self).pontuacao_b as int == old(self).pontuacao_b + (if id_jogador % 2 == 0 {
                0int
            } else {
                100int
            }) + parcial(old(self).jogos_time_b@, old(self).tres_vermelhos_time_b@) - if alguma_mao_vazia(
                old(self).maos@,
            ) {
                penalidade_time(old(self).maos@, 1)
            } else {
                0
            },
            *final(self) == (EstadoJogo {
                pontuacao_a: final(self).pontuacao_a,
                pontuacao_b: final(self).pontuacao_b,
                partida_encerrada: true,
                ..*old(self)
            }),
            bem_formado(*final(self)),
            placar_dentro(*final(self), 1000030000),
    {
        if id_jogador % 2 == 0 {
            self.pontuacao_a = self.pontuacao_a + 100;
        } else {
            self.pontuacao_b = self.pontuacao_b + 100;
        }
        self.partida_encerrada = true;
        self.contar_pontos_final();
    }

    /// Encerra a rodada por esgotamento do monte: conta as mesas dos dois
    /// times, sem penalizar ninguem pelas cartas na mao.
    pub(crate) fn encerrar_partida_por_esgotamento(&mut self)
        requires
            bem_formado(*old(self)),
            placar_dentro(*old(self), 1000000500),
        ensures
            final(self).partida_encerrada,
            final(self).pontuacao_a as int == old(self).pontuacao_a + parcial(
                old(self).jogos_time_a@,
                old(self).tres_vermelhos_time_a@,
            ),
            final(self).pontuacao_b as int == old(self).pontuacao_b + parcial(
                old(self).jogos_time_b@,
                old(self).tres_vermelhos_time_b@,
            ),
            *final(self) == (EstadoJogo {
                pontuacao_a: final(self).pontuacao_a,
                pontuacao_b: final(self).pontuacao_b,
                partida_encerrada: true,
                ..*old(self)
            }),
            bem_formado(*final(self)),
            placar_dentro(*final(self), 1000030000),
    {
        self.partida_encerrada = true;
        self.contar_pontos();
    }

    /// Posicao de algum 3 vermelho na mao, se houver.
    fn achar_tres_vermelho(mao: &Vec<Carta>) -> (r: Option<usize>)
        ensures
            r matches Some(p) ==> p < mao@.len() && tres_vermelho(mao@[p as int]),
            r is None ==> forall|k: int| 0 <= k < mao@.len() ==> !tres_vermelho(#[trigger] mao@[k]),
    {
        let n = mao.len();
        let mut i: usize = 0;
        while i < n
            invariant
                n == mao@.len(),
                i <= n,
                forall|k: int| 0 <= k < i ==> !tres_vermelho(#[trigger] mao@[k]),
            decreases n - i,
        {
            if mao[i].eh_tres_vermelho() {
                return Some(i);
            }
            i += 1;
        }
        None
    }

    /// Extrai da mao do jogador todo 3 vermelho: cada um vai para a reserva
    /// do time e e reposto por uma compra do monte enquanto houver cartas;
    /// cartas repostas tambem sao reexaminadas. Ao fim a mao nao tem 3
    /// vermelho algum e nao cresceu.
    #[verifier::rlimit(100)]
    pub fn processar_tres_vermelhos(&mut self, jogador_id: usize)
        requires
            bem_formado(*old(self)),
            jogador_id < 4,
        ensures
            bem_formado(*final(self)),
            forall|k: int|
                0 <= k < final(self).maos@[jogador_id as int]@.len() ==> !tres_vermelho(
                    #[trigger] final(self).maos@[jogador_id as int]@[k],
                ),
            final(self).maos@[jogador_id as int]@.len() <= old(self).maos@[
                jogador_id as int
            ]@.len(),
            old(self).baralho.cartas@.len() >= conta_tres_vermelhos(old(self).baralho.cartas@)
                + conta_tres_vermelhos(old(self).maos@[jogador_id as int]@)
                ==> final(self).maos@[jogador_id as int]@.len() == old(self).maos@[
                jogador_id as int
            ]@.len(),
            final(self).baralho.cartas@.len() - conta_tres_vermelhos(final(self).baralho.cartas@)
                - conta_tres_vermelhos(final(self).maos@[jogador_id as int]@)
                >= old(self).baralho.cartas@.len() - conta_tres_vermelhos(
                old(self).baralho.cartas@,
            ) - conta_tres_vermelhos(old(self).maos@[jogador_id as int]@),
            forall|i: int|
                0 <= i < 4 && i != jogador_id ==> final(self).maos@[i] == old(self).maos@[i],
            final(self).baralho.cartas@.is_prefix_of(old(self).baralho.cartas@),
            tres_time(*final(self), (jogador_id % 2) as int).len() >= tres_time(
                *old(self),
                (jogador_id % 2) as int,
            ).len(),
            tres_time(*final(self), (jogador_id % 2) as int).take(
                tres_time(*old(self), (jogador_id % 2) as int).len() as int,
            ) == tres_time(*old(self), (jogador_id % 2) as int),
            forall|k: int|
                tres_time(*old(self), (jogador_id % 2) as int).len() <= k < tres_time(
                    *final(self),
                    (jogador_id % 2) as int,
                ).len() ==> tres_vermelho(
                    #[trigger] tres_time(*final(self), (jogador_id % 2) as int)[k],
                ),
            jogador_id % 2 == 0 ==> final(self).tres_vermelhos_time_b == old(
                self,
            ).tres_vermelhos_time_b,
            jogador_id % 2 == 1 ==> final(self).tres_vermelhos_time_a == old(
                self,
            ).tres_vermelhos_time_a,
            final(self).maos@[jogador_id as int]@.to_multiset().add(
                tres_time(*final(self), (jogador_id % 2) as int).skip(
                    tres_time(*old(self), (jogador_id % 2) as int).len() as int,
                ).to_multiset(),
            ) == old(self).maos@[jogador_id as int]@.to_multiset().add(
                old(self).baralho.cartas@.skip(
                    final(self).baralho.cartas@.len() as int,
                ).to_multiset(),
            ),
            *final(self) == (EstadoJogo {
                baralho: final(self).baralho,
                maos: final(self).maos,
                tres_vermelhos_time_a: final(self).tres_vermelhos_time_a,
                tres_vermelhos_time_b: final(self).tres_vermelhos_time_b,
                ..*old(self)
            }),
    {
        let ghost e0 = *old(self);
        let ghost time = (jogador_id % 2) as int;
        proof {
            assert(tres_time(e0, time).skip(tres_time(e0, time).len() as int) =~= Seq::<
                Carta,
            >::empty());
            assert(e0.baralho.cartas@.skip(e0.baralho.cartas@.len() as int) =~= Seq::<
                Carta,
            >::empty());
            assert(self.maos@[jogador_id as int]@.to_multiset().add(
                Seq::<Carta>::empty().to_multiset(),
            ) =~= e0.maos@[jogador_id as int]@.to_multiset().add(
                Seq::<Carta>::empty().to_multiset(),
            ));
        }
        loop
            invariant
                jogador_id < 4,
                bem_formado(*self),
                self.maos@.len() == 4,
                forall|i: int| 0 <= i < 4 && i != jogador_id ==> self.maos@[i] == e0.maos@[i],
                self.maos@[jogador_id as int]@.len() <= e0.maos@[jogador_id as int]@.len(),
                e0.baralho.cartas@.len() >= conta_tres_vermelhos(e0.baralho.cartas@)
                    + conta_tres_vermelhos(e0.maos@[jogador_id as int]@) ==> self.maos@[
                    jogador_id as int
                ]@.len() == e0.maos@[jogador_id as int]@.len(),
                self.baralho.cartas@.len() - conta_tres_vermelhos(self.baralho.cartas@)
                    - conta_tres_vermelhos(self.maos@[jogador_id as int]@)
                    >= e0.baralho.cartas@.len() - conta_tres_vermelhos(e0.baralho.cartas@)
                    - conta_tres_vermelhos(e0.maos@[jogador_id as int]@),
                self.baralho.cartas@.is_prefix_of(e0.baralho.cartas@),
                time == (jogador_id % 2) as int,
                tres_time(*self, time).len() >= tres_time(e0, time).len(),
                tres_time(*self, time).take(tres_time(e0, time).len() as int) == tres_time(
                    e0,
                    time,
                ),
                forall|k: int|
                    tres_time(e0, time).len() <= k < tres_time(*self, time).len()
                        ==> tres_vermelho(#[trigger] tres_time(*self, time)[k]),
                jogador_id % 2 == 0 ==> self.tres_vermelhos_time_b == e0.tres_vermelhos_time_b,
                jogador_id % 2 == 1 ==> self.tres_vermelhos_time_a == e0.tres_vermelhos_time_a,
                self.maos@[jogador_id as int]@.to_multiset().add(
                    tres_time(*self, time).skip(
                        tres_time(e0, time).len() as int,
                    ).to_multiset(),
                ) == e0.maos@[jogador_id as int]@.to_multiset().add(
                    e0.baralho.cartas@.skip(self.baralho.cartas@.len() as int).to_multiset(),
                ),
                *self == (EstadoJogo {
                    baralho: self.baralho,
                    maos: self.maos,
                    tres_vermelhos_time_a: self.tres_vermelhos_time_a,
                    tres_vermelhos_time_b: self.tres_vermelhos_time_b,
                    ..e0
                }),
            ensures
                forall|k: int|
                    0 <= k < self.maos@[jogador_id as int]@.len() ==> !tres_vermelho(
                        #[trigger] self.maos@[jogador_id as int]@[k],
                    ),
            decreases
                    self.baralho.cartas@.len(),
                    conta_tres_vermelhos(self.maos@[jogador_id as int]@),
        {
            proof {
                lema_conta_tres_nao_negativa(self.maos@[jogador_id as int]@);
            }
            let pos_opt = Self::achar_tres_vermelho(&self.maos[jogador_id]);
            match pos_opt {
                None => {
                    break ;
                },
                Some(pos) => {
                    let ghost maos1 = self.maos@;
                    let ghost mao_antes = self.maos@[jogador_id as int]@;
                    let ghost stash_antes = tres_time(*self, time);
                    let ghost l0 = tres_time(e0, time).len() as int;
                    let ghost stock_entrada = self.baralho.cartas@;
                    let c = self.maos[jogador_id].remove(pos);
                    proof {
                        assert(self.maos@ == maos1.update(
                            jogador_id as int,
                            self.maos@[jogador_id as int],
                        ));
                        assert(self.maos@[jogador_id as int]@ =~= mao_antes.remove(pos as int));
                        lema_conta_tres_remove(mao_antes, pos as int);
                        lema_cartas_maos_troca(
                            maos1,
                            jogador_id as int,
                            self.maos@[jogador_id as int],
                        );
                        assert(self.maos@[jogador_id as int]@.to_multiset()
                            =~= mao_antes.to_multiset().remove(c));
                        assert(mao_antes.contains(c));
                        assert(mao_antes.to_multiset().count(c) > 0);
                    }
                    if jogador_id % 2 == 0 {
                        self.tres_vermelhos_time_a.push(c);
                    } else {
                        self.tres_vermelhos_time_b.push(c);
                    }
                    proof {
                        assert(tres_time(*self, time) == stash_antes.push(c));
                        assert(tres_time(*self, time).take(tres_time(e0, time).len() as int)
                            =~= stash_antes.take(tres_time(e0, time).len() as int));
                        assert(tres_time(*self, time).skip(l0) =~= stash_antes.skip(l0).push(c));
                        assert(tres_time(*self, time).skip(l0).to_multiset()
                            =~= stash_antes.skip(l0).to_multiset().insert(c));
                        lema_transferencia(
                            mao_antes.to_multiset(),
                            stash_antes.skip(l0).to_multiset(),
                            c,
                        );
                        assert(self.maos@[jogador_id as int]@.to_multiset().add(
                            tres_time(*self, time).skip(l0).to_multiset(),
                        ) =~= mao_antes.to_multiset().add(stash_antes.skip(l0).to_multiset()));
                    }
                    proof {
                        lema_conta_tres_nao_negativa(self.baralho.cartas@);
                    }
                    let ghost stock1 = self.baralho.cartas@;
                    let comprada = self.baralho.comprar();
                    if comprada.is_none() {
                        proof {
                            assert(stock1.len() == 0);
                            lema_conta_tres_nao_negativa(mao_antes.remove(pos as int));
                            assert(tres_vermelho(mao_antes[pos as int]));
                            assert(conta_tres_vermelhos(mao_antes) >= 1);
                            assert(!(e0.baralho.cartas@.len() >= conta_tres_vermelhos(
                                e0.baralho.cartas@,
                            ) + conta_tres_vermelhos(e0.maos@[jogador_id as int]@)));
                        }
                    }
                    if let Some(nc) = comprada {
                        proof {
                            assert(self.baralho.cartas@ =~= stock1.drop_last());
                            assert(stock1.last() == nc);
                            assert(conta_tres_vermelhos(stock1) == conta_tres_vermelhos(
                                self.baralho.cartas@,
                            ) + if tres_vermelho(nc) {
                                1int
                            } else {
                                0int
                            });
                            assert(self.baralho.cartas@ =~= e0.baralho.cartas@.subrange(
                                0,
                                self.baralho.cartas@.len() as int,
                            ));
                            assert(stock1 =~= e0.baralho.cartas@.subrange(
                                0,
                                stock1.len() as int,
                            ));
                            assert(nc == e0.baralho.cartas@[stock1.len() - 1]);
                            lema_skip_frente(e0.baralho.cartas@, stock1.len() - 1);
                            assert(e0.baralho.cartas@.skip(stock1.len() - 1).to_multiset()
                                =~= e0.baralho.cartas@.skip(
                                stock1.len() as int,
                            ).to_multiset().insert(nc));
                        }
                        let ghost maos2 = self.maos@;
                        let ghost mao2 = self.maos@[jogador_id as int]@;
                        self.maos[jogador_id].push(nc);
                        proof {
                            lema_cartas_maos_troca(
                                maos2,
                                jogador_id as int,
                                self.maos@[jogador_id as int],
                            );
                            assert(self.maos@[jogador_id as int]@ =~= mao2.push(nc));
                            lema_conta_tres_push(mao2, nc);
                            assert(conta_tres_vermelhos(self.maos@[jogador_id as int]@)
                                == conta_tres_vermelhos(mao2) + if tres_vermelho(nc) {
                                1int
                            } else {
                                0int
                            });
                            assert(self.maos@[jogador_id as int]@.to_multiset()
                                =~= mao2.to_multiset().insert(nc));
                            assert(self.maos@[jogador_id as int]@.to_multiset().add(
                                tres_time(*self, time).skip(l0).to_multiset(),
                            ) =~= mao2.to_multiset().add(
                                tres_time(*self, time).skip(l0).to_multiset(),
                            ).insert(nc));
                            assert(e0.maos@[jogador_id as int]@.to_multiset().add(
                                e0.baralho.cartas@.skip(
                                    self.baralho.cartas@.len() as int,
                                ).to_multiset(),
                            ) =~= e0.maos@[jogador_id as int]@.to_multiset().add(
                                e0.baralho.cartas@.skip(stock1.len() as int).to_multiset(),
                            ).insert(nc));
                        }
                    }
                    proof {
                        lema_conta_tres_nao_negativa(self.maos@[jogador_id as int]@);
                    }
                },
            }
        }
    }

    /// Embaralha o monte e distribui 15 cartas a cada um dos 4 jogadores,
    /// extraindo em seguida os 3 vermelhos de cada mao (com reposicao).
    #[verifier::rlimit(100)]
    pub fn dar_cartas(&mut self)
        requires
            bem_formado(*old(self)),
            forall|i: int| 0 <= i < 4 ==> #[trigger] old(self).maos@[i]@.len() == 0,
            old(self).baralho.cartas@.to_multiset() == crate::baralho::baralho_inicial().to_multiset(),
        ensures
            bem_formado(*final(self)),
            forall|i: int, k: int|
                0 <= i < 4 && 0 <= k < final(self).maos@[i]@.len() ==> !tres_vermelho(
                    #[trigger] final(self).maos@[i]@[k],
                ),
            forall|i: int| 0 <= i < 4 ==> #[trigger] final(self).maos@[i]@.len() == 15,
            final(self).baralho.cartas@.len() + final(self).tres_vermelhos_time_a@.len()
                + final(self).tres_vermelhos_time_b@.len() == 48 + old(
                self,
            ).tres_vermelhos_time_a@.len() + old(self).tres_vermelhos_time_b@.len(),
            final(self).tres_vermelhos_time_a@.len() >= old(self).tres_vermelhos_time_a@.len(),
            final(self).tres_vermelhos_time_a@.take(old(self).tres_vermelhos_time_a@.len() as int)
                == old(self).tres_vermelhos_time_a@,
            forall|k: int|
                old(self).tres_vermelhos_time_a@.len() <= k
                    < final(self).tres_vermelhos_time_a@.len() ==> tres_vermelho(
                    #[trigger] final(self).tres_vermelhos_time_a@[k],
                ),
            final(self).tres_vermelhos_time_b@.len() >= old(self).tres_vermelhos_time_b@.len(),
            final(self).tres_vermelhos_time_b@.take(old(self).tres_vermelhos_time_b@.len() as int)
                == old(self).tres_vermelhos_time_b@,
            forall|k: int|
                old(self).tres_vermelhos_time_b@.len() <= k
                    < final(self).tres_vermelhos_time_b@.len() ==> tres_vermelho(
                    #[trigger] final(self).tres_vermelhos_time_b@[k],
                ),
            *final(self) == (EstadoJogo {
                baralho: final(self).baralho,
                maos: final(self).maos,
                tres_vermelhos_time_a: final(self).tres_vermelhos_time_a,
                tres_vermelhos_time_b: final(self).tres_vermelhos_time_b,
                ..*old(self)
            }),
    {
        self.baralho.shuffle();
        proof {
            lema_cartas_maos_vazias(self.maos@);
            lema_conta_tres_inicial();
            assert(self.baralho.cartas@.to_multiset()
                == crate::baralho::baralho_inicial().to_multiset());
            lema_conta_tres_congruente(self.baralho.cartas@, crate::baralho::baralho_inicial());
            assert(conta_tres_vermelhos(self.baralho.cartas@) == 4);
            assert(crate::baralho::baralho_inicial().len() == 108);
            assert(self.baralho.cartas@.len() == self.baralho.cartas@.to_multiset().len());
            assert(crate::baralho::baralho_inicial().len()
                == crate::baralho::baralho_inicial().to_multiset().len());
            assert(self.baralho.cartas@.len() == 108);
        }
        let ghost e1 = *self;
        let mut maos: Vec<Vec<Carta>> = Vec::new();
        maos.push(Vec::new());
        maos.push(Vec::new());
        maos.push(Vec::new());
        maos.push(Vec::new());
        proof {
            lema_cartas_maos_vazias(maos@);
        }
        let mut volta: usize = 0;
        while volta < 15
            invariant
                volta <= 15,
                maos@.len() == 4,
                e1.baralho.cartas@.len() == 108,
                self.baralho.cartas@.len() + cartas_maos(maos@) == e1.baralho.cartas@.len(),
                self.baralho.cartas@.len() == 108 - 4 * (volta as int),
                forall|j: int| 0 <= j < 4 ==> #[trigger] maos@[j]@.len() == volta,
                conta_tres_vermelhos(self.baralho.cartas@) + conta_tres_vermelhos(maos@[0]@)
                    + conta_tres_vermelhos(maos@[1]@) + conta_tres_vermelhos(maos@[2]@)
                    + conta_tres_vermelhos(maos@[3]@) == 4,
                *self == (EstadoJogo { baralho: self.baralho, ..e1 }),
            decreases 15 - volta,
        {
            let mut j: usize = 0;
            while j < 4
                invariant
                    volta < 15,
                    j <= 4,
                    maos@.len() == 4,
                    e1.baralho.cartas@.len() == 108,
                    self.baralho.cartas@.len() + cartas_maos(maos@) == e1.baralho.cartas@.len(),
                    self.baralho.cartas@.len() == 108 - 4 * (volta as int) - (j as int),
                    forall|k: int| 0 <= k < j ==> #[trigger] maos@[k]@.len() == volta + 1,
                    forall|k: int| j <= k < 4 ==> #[trigger] maos@[k]@.len() == volta,
                    conta_tres_vermelhos(self.baralho.cartas@) + conta_tres_vermelhos(maos@[0]@)
                        + conta_tres_vermelhos(maos@[1]@) + conta_tres_vermelhos(maos@[2]@)
                        + conta_tres_vermelhos(maos@[3]@) == 4,
                    *self == (EstadoJogo { baralho: self.baralho, ..e1 }),
                decreases 4 - j,
            {
                let ghost stock_antes = self.baralho.cartas@;
                let carta = self.baralho.comprar();
                if let Some(c) = carta {
                    let ghost maos_antes = maos@;
                    maos[j].push(c);
                    proof {
                        lema_cartas_maos_troca(maos_antes, j as int, maos@[j as int]);
                        assert(self.baralho.cartas@ =~= stock_antes.drop_last());
                        assert(stock_antes.last() == c);
                        assert(conta_tres_vermelhos(stock_antes) == conta_tres_vermelhos(
                            self.baralho.cartas@,
                        ) + if tres_vermelho(c) {
                            1int
                        } else {
                            0int
                        });
                        lema_conta_tres_push(maos_antes[j as int]@, c);
                        assert(maos@[j as int]@ =~= maos_antes[j as int]@.push(c));
                        assert(forall|k: int|
                            0 <= k < 4 && k != j ==> maos@[k] == maos_antes[k]);
                    }
                } else {
                    proof {
                        assert(stock_antes.len() > 0);
                        assert(false);
                    }
                }
                j += 1;
            }
            volta += 1;
        }
        self.maos = maos;
        proof {
            lema_conta_tres_nao_negativa(self.baralho.cartas@);
            lema_conta_tres_nao_negativa(self.maos@[0]@);
            lema_conta_tres_nao_negativa(self.maos@[1]@);
            lema_conta_tres_nao_negativa(self.maos@[2]@);
            lema_conta_tres_nao_negativa(self.maos@[3]@);
        }
        let mut i: usize = 0;
        while i < 4
            invariant
                i <= 4,
                bem_formado(*self),
                forall|p: int, k: int|
                    0 <= p < i && 0 <= k < self.maos@[p]@.len() ==> !tres_vermelho(
                        #[trigger] self.maos@[p]@[k],
                    ),
                forall|p: int| 0 <= p < 4 ==> #[trigger] self.maos@[p]@.len() == 15,
                conta_tres_vermelhos(self.baralho.cartas@) + conta_tres_vermelhos(self.maos@[0]@)
                    + conta_tres_vermelhos(self.maos@[1]@) + conta_tres_vermelhos(
                    self.maos@[2]@,
                ) + conta_tres_vermelhos(self.maos@[3]@) <= self.baralho.cartas@.len(),
                self.tres_vermelhos_time_a@.len() >= e1.tres_vermelhos_time_a@.len(),
                self.tres_vermelhos_time_a@.take(e1.tres_vermelhos_time_a@.len() as int)
                    == e1.tres_vermelhos_time_a@,
                forall|k: int|
                    e1.tres_vermelhos_time_a@.len() <= k < self.tres_vermelhos_time_a@.len()
                        ==> tres_vermelho(#[trigger] self.tres_vermelhos_time_a@[k]),
                self.tres_vermelhos_time_b@.len() >= e1.tres_vermelhos_time_b@.len(),
                self.tres_vermelhos_time_b@.take(e1.tres_vermelhos_time_b@.len() as int)
                    == e1.tres_vermelhos_time_b@,
                forall|k: int|
                    e1.tres_vermelhos_time_b@.len() <= k < self.tres_vermelhos_time_b@.len()
                        ==> tres_vermelho(#[trigger] self.tres_vermelhos_time_b@[k]),
                *self == (EstadoJogo {
                    baralho: self.baralho,
                    maos: self.maos,
                    tres_vermelhos_time_a: self.tres_vermelhos_time_a,
                    tres_vermelhos_time_b: self.tres_vermelhos_time_b,
                    ..e1
                }),
            decreases 4 - i,
        {
            let ghost antes = *self;
            proof {
                lema_conta_tres_nao_negativa(antes.baralho.cartas@);
                lema_conta_tres_nao_negativa(antes.maos@[0]@);
                lema_conta_tres_nao_negativa(antes.maos@[1]@);
                lema_conta_tres_nao_negativa(antes.maos@[2]@);
                lema_conta_tres_nao_negativa(antes.maos@[3]@);
                assert(antes.baralho.cartas@.len() >= conta_tres_vermelhos(antes.baralho.cartas@)
                    + conta_tres_vermelhos(antes.maos@[i as int]@));
            }
            self.processar_tres_vermelhos(i);
            proof {
                lema_conta_tres_nao_negativa(self.baralho.cartas@);
                lema_conta_tres_nao_negativa(self.maos@[0]@);
                lema_conta_tres_nao_negativa(self.maos@[1]@);
                lema_conta_tres_nao_negativa(self.maos@[2]@);
                lema_conta_tres_nao_negativa(self.maos@[3]@);
                assert(self.maos@[i as int]@.len() == 15);
                assert(forall|p: int|
                    0 <= p < 4 && p != i ==> self.maos@[p] == antes.maos@[p]);
                assert(conta_tres_vermelhos(self.baralho.cartas@) + conta_tres_vermelhos(
                    self.maos@[0]@,
                ) + conta_tres_vermelhos(self.maos@[1]@) + conta_tres_vermelhos(self.maos@[2]@)
                    + conta_tres_vermelhos(self.maos@[3]@) <= self.baralho.cartas@.len());
                if i % 2 == 0 {
                    assert(forall|k: int|
                        0 <= k < antes.tres_vermelhos_time_a@.len()
                            ==> #[trigger] self.tres_vermelhos_time_a@[k]
                            == antes.tres_vermelhos_time_a@[k]);
                    assert(self.tres_vermelhos_time_a@.take(
                        e1.tres_vermelhos_time_a@.len() as int,
                    ) =~= e1.tres_vermelhos_time_a@);
                } else {
                    assert(forall|k: int|
                        0 <= k < antes.tres_vermelhos_time_b@.len()
                            ==> #[trigger] self.tres_vermelhos_time_b@[k]
                            == antes.tres_vermelhos_time_b@[k]);
                    assert(self.tres_vermelhos_time_b@.take(
                        e1.tres_vermelhos_time_b@.len() as int,
                    ) =~= e1.tres_vermelhos_time_b@);
                }
            }
            i += 1;
        }
        proof {
            lema_cartas_maos_quatro(self.maos@);
            lema_cartas_maos_vazias(e1.maos@);
            crate::pontos::lema_limites_pontos_mesa_simples(self.jogos_time_a@);
            crate::pontos::lema_limites_pontos_mesa_simples(self.jogos_time_b@);
            assert(cartas_maos(self.maos@) == 60);
            assert(total_cartas(e1) == 108);
            assert(total_cartas(*self) == 108);
        }
    }

    /// Prepara a rodada seguinte: avanca o contador de rodadas, gira quem
    /// comeca, zera mesa, lixo, reservas e flags, monta baralho novo e da
    /// as cartas. O placar e o contador de ids de jogos persistem.
    pub fn preparar_proxima_rodada(&mut self)
        requires
            old(self).rodada < 0xffff_ffff,
        ensures
            bem_formado(*final(self)),
            final(self).rodada == old(self).rodada + 1,
            final(self).turno_atual == (old(self).rodada + 1) % 4,
            final(self).pontuacao_a == old(self).pontuacao_a,
            final(self).pontuacao_b == old(self).pontuacao_b,
            final(self).proximo_id_jogo == old(self).proximo_id_jogo,
            final(self).lixo@.len() == 0,
            final(self).jogos_time_a@.len() == 0,
            final(self).jogos_time_b@.len() == 0,
            !final(self).pegou_lixo_nesta_rodada,
            !final(self).partida_encerrada,
            !final(self).baralho_acabou_nesta_rodada,
            !final(self).comprou_nesta_rodada,
            forall|i: int, k: int|
                0 <= i < 4 && 0 <= k < final(self).maos@[i]@.len() ==> !tres_vermelho(
                    #[trigger] final(self).maos@[i]@[k],
                ),
            forall|i: int| 0 <= i < 4 ==> #[trigger] final(self).maos@[i]@.len() == 15,
            final(self).baralho.cartas@.len() + final(self).tres_vermelhos_time_a@.len()
                + final(self).tres_vermelhos_time_b@.len() == 48,
            forall|k: int|
                0 <= k < final(self).tres_vermelhos_time_a@.len() ==> tres_vermelho(
                    #[trigger] final(self).tres_vermelhos_time_a@[k],
                ),
            forall|k: int|
                0 <= k < final(self).tres_vermelhos_time_b@.len() ==> tres_vermelho(
                    #[trigger] final(self).tres_vermelhos_time_b@[k],
                ),
    {
        self.rodada = self.rodada + 1;
        self.turno_atual = self.rodada % 4;
        self.baralho = Baralho::new();
        self.lixo = Vec::new();
        self.jogos_time_a = Vec::new();
        self.jogos_time_b = Vec::new();
        self.tres_vermelhos_time_a = Vec::new();
        self.tres_vermelhos_time_b = Vec::new();
        let mut maos: Vec<Vec<Carta>> = Vec::new();
        maos.push(Vec::new());
        maos.push(Vec::new());
        maos.push(Vec::new());
        maos.push(Vec::new());
        self.maos = maos;
        self.pegou_lixo_nesta_rodada = false;
        self.partida_encerrada = false;
        self.baralho_acabou_nesta_rodada = false;
        self.comprou_nesta_rodada = false;
        proof {
            lema_cartas_maos_vazias(self.maos@);
            assert(self.baralho.cartas@.to_multiset()
                == crate::baralho::baralho_inicial().to_multiset());
        }
        self.dar_cartas();
    }

    /// O jogador pode bater agora, considerando tambem os jogos que esta
    /// baixando neste momento?
    pub fn pode_bater_com_contexto(&self, id_jogador: usize, novos_jogos: &[Vec<Carta>]) -> (r:
        Result<(), crate::acoes::Recusa>)
        ensures
            r is Ok <==> pode_bater_espec(*self, (id_jogador % 2) as int, novos_jogos@) is None,
            r matches Err(m) ==> pode_bater_espec(*self, (id_jogador % 2) as int, novos_jogos@)
                == Some(m),
    {
        if self.pegou_lixo_nesta_rodada {
            return Err(crate::acoes::Recusa::BatidaAposLixo);
        }
        let tem_real_mesa = self.conferir_real(id_jogador);
        let ghost js = novos_jogos@;
        let n = novos_jogos.len();
        let mut tem_real_novos = false;
        let mut i: usize = 0;
        while i < n
            invariant
                n == js.len(),
                novos_jogos@ == js,
                i <= n,
                tem_real_novos == algum_novo_real(js.take(i as int)),
            decreases n - i,
        {
            let ghost t = js.take(i + 1);
            let ghost p = js.take(i as int);
            proof {
                assert(forall|k: int| 0 <= k <= i ==> #[trigger] t[k] == js[k]);
                assert(forall|k: int| 0 <= k < i ==> #[trigger] p[k] == js[k]);
            }
            if novos_jogos[i].len() >= 7 && !crate::regras::tem_coringa(novos_jogos[i].as_slice()) {
                proof {
                    assert(canastra_real(t[i as int]@));
                }
                tem_real_novos = true;
            }
            proof {
                if algum_novo_real(p) {
                    let w = choose|k: int| 0 <= k < p.len() && canastra_real(#[trigger] p[k]@);
                    assert(canastra_real(t[w]@));
                }
                if algum_novo_real(t) && !canastra_real(t[i as int]@) {
                    let w = choose|k: int| 0 <= k < t.len() && canastra_real(#[trigger] t[k]@);
                    assert(canastra_real(p[w]@));
                }
            }
            i += 1;
        }
        proof {
            assert(js.take(n as int) =~= js);
        }
        if !tem_real_mesa && !tem_real_novos {
            return Err(crate::acoes::Recusa::SemCanastraReal);
        }
        Ok(())
    }

    /// A "foto" do jogo para um observador: a propria mao completa, so as
    /// contagens das maos alheias, as mesas e reservas (publicas), o topo
    /// do lixo, placar, turno, rodada e o tamanho do monte.
    pub fn gerar_visao_para(&self, id_observador: u32) -> (v: crate::acoes::VisaoJogador)
        requires
            bem_formado(*self),
        ensures
            v.meu_id == id_observador,
            id_observador < 4 ==> v.minha_mao@ == self.maos@[id_observador as int]@,
            id_observador >= 4 ==> v.minha_mao@.len() == 0,
            v.posso_jogar == (self.turno_atual == id_observador),
            v.mesa_time_a@.len() == self.jogos_time_a@.len(),
            forall|i: int|
                0 <= i < v.mesa_time_a@.len() ==> (#[trigger] v.mesa_time_a@[i]).id
                    == self.jogos_time_a@[i].id && v.mesa_time_a@[i].cartas@
                    == self.jogos_time_a@[i].cartas@,
            v.mesa_time_b@.len() == self.jogos_time_b@.len(),
            forall|i: int|
                0 <= i < v.mesa_time_b@.len() ==> (#[trigger] v.mesa_time_b@[i]).id
                    == self.jogos_time_b@[i].id && v.mesa_time_b@[i].cartas@
                    == self.jogos_time_b@[i].cartas@,
            v.tres_vermelho_time_a@ == self.tres_vermelhos_time_a@,
            v.tres_vermelho_time_b@ == self.tres_vermelhos_time_b@,
            self.lixo@.len() > 0 ==> v.lixo == Some(self.lixo@.last()),
            self.lixo@.len() == 0 ==> v.lixo is None,
            v.qtd_cartas_jogadores@.len() == 4,
            forall|i: int|
                0 <= i < 4 ==> (#[trigger] v.qtd_cartas_jogadores@[i]) as int == self.maos@[i]@.len(),
            v.pontuacao_a == self.pontuacao_a,
            v.pontuacao_b == self.pontuacao_b,
            v.turno_atual == self.turno_atual,
            v.rodada == self.rodada,
            v.cartas_no_monte == self.baralho.cartas@.len(),
            v.qtd_monte as int == self.baralho.cartas@.len(),
            v.qtd_lixo as int == self.lixo@.len(),
            v.verso_topo is None,
    {
        proof {
            lema_limites_componentes(*self);
        }
        let minha_mao = if (id_observador as usize) < 4 {
            crate::baralho::copiar_cartas(self.maos[id_observador as usize].as_slice())
        } else {
            Vec::new()
        };
        let mut qtd_cartas_jogadores: Vec<usize> = Vec::new();
        qtd_cartas_jogadores.push(self.maos[0].len());
        qtd_cartas_jogadores.push(self.maos[1].len());
        qtd_cartas_jogadores.push(self.maos[2].len());
        qtd_cartas_jogadores.push(self.maos[3].len());
        let lixo_topo = if self.lixo.len() > 0 {
            Some(self.lixo[self.lixo.len() - 1])
        } else {
            None
        };
        crate::acoes::VisaoJogador {
            meu_id: id_observador,
            minha_mao,
            posso_jogar: self.turno_atual == id_observador,
            mesa_time_a: Self::copiar_mesa(&self.jogos_time_a),
            mesa_time_b: Self::copiar_mesa(&self.jogos_time_b),
            tres_vermelho_time_a: crate::baralho::copiar_cartas(self.tres_vermelhos_time_a.as_slice()),
            tres_vermelho_time_b: crate::baralho::copiar_cartas(self.tres_vermelhos_time_b.as_slice()),
            lixo: lixo_topo,
            qtd_cartas_jogadores,
            pontuacao_a: self.pontuacao_a,
            pontuacao_b: self.pontuacao_b,
            turno_atual: self.turno_atual,
            rodada: self.rodada,
            cartas_no_monte: self.baralho.restantes(),
            qtd_monte: self.baralho.restantes() as u32,
            qtd_lixo: self.lixo.len() as u32,
            verso_topo: None,
        }
    }

    /// Copia uma mesa, jogo a jogo (a copia guarda os mesmos ids e as
    /// mesmas cartas).
    fn copiar_mesa(jogos: &Vec<DetalheJogo>) -> (r: Vec<DetalheJogo>)
        ensures
            r@.len() == jogos@.len(),
            forall|i: int|
                0 <= i < r@.len() ==> (#[trigger] r@[i]).id == jogos@[i].id && r@[i].cartas@
                    == jogos@[i].cartas@,
    {
        let n = jogos.len();
        let mut r: Vec<DetalheJogo> = Vec::new();
        let mut i: usize = 0;
        while i < n
            invariant
                n == jogos@.len(),
                i <= n,
                r@.len() == i,
                forall|k: int|
                    0 <= k < i ==> (#[trigger] r@[k]).id == jogos@[k].id && r@[k].cartas@
                        == jogos@[k].cartas@,
            decreases n - i,
        {
            let copia = crate::baralho::copiar_cartas(jogos[i].cartas.as_slice());
            r.push(DetalheJogo { id: jogos[i].id, cartas: copia });
            i += 1;
        }
        r
    }
}

} // verus!
