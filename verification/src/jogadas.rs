//! As acoes de turno do motor: comprar do monte, pegar o lixo, baixar
//! jogos, ajuntar e descartar, e o despacho `realizar_acao`.
//!
//! Cada acao decide primeiro, muda depois: um `Err` devolve o estado
//! byte a byte como estava. As decisoes sao funcoes espec (`motivo_*`)
//! e os efeitos predicados espec (`efeito_*`), que os contratos citam.

use crate::acoes::{texto_recusa, AcaoJogador, DetalheJogo, Recusa, ResultadoCompra};
use crate::baralho::{copiar_cartas, coringa, trava_lixo, tres_vermelho, Carta};
use crate::estado::{
    algum_novo_real, bem_formado, lema_cartas_maos_troca, lema_cartas_mesa_congruente,
    lema_limites_componentes, limite_abertura, mesa_time, mesa_valida, penalidade_time,
    placar_seguro, pode_bater_espec, tres_time, EstadoJogo,
};
use crate::pontos::{canastra_real, cartas_mesa, parcial, pontos_cartas, tem_canastra_real};
use crate::regras::jogo_valido;
use vstd::prelude::*;
use vstd::seq_lib::lemma_multiset_commutative;

verus! {

broadcast use vstd::seq_lib::group_to_multiset_ensures, vstd::multiset::group_multiset_axioms;

/// A concatenacao das cartas de uma lista de jogos propostos.
pub open spec fn concat_jogos(js: Seq<Vec<Carta>>) -> Seq<Carta>
    decreases js.len(),
{
    if js.len() == 0 {
        Seq::empty()
    } else {
        concat_jogos(js.drop_last()) + js.last()@
    }
}

/// Todos os jogos propostos sao validos?
pub open spec fn todos_jogos_validos(js: Seq<Vec<Carta>>) -> bool {
    forall|i: int| 0 <= i < js.len() ==> jogo_valido(#[trigger] js[i]@)
}

/// Achata os jogos propostos numa so lista de cartas.
fn achatar_jogos(jogos: &Vec<Vec<Carta>>) -> (r: Vec<Carta>)
    ensures
        r@ == concat_jogos(jogos@),
{
    let ghost js = jogos@;
    let n = jogos.len();
    let mut r: Vec<Carta> = Vec::new();
    let mut i: usize = 0;
    while i < n
        invariant
            n == js.len(),
            jogos@ == js,
            i <= n,
            r@ == concat_jogos(js.take(i as int)),
        decreases n - i,
    {
        proof {
            assert(js.take(i + 1).drop_last() =~= js.take(i as int));
            assert(js.take(i + 1).last() == js[i as int]);
        }
        let mut copia = copiar_cartas(jogos[i].as_slice());
        r.append(&mut copia);
        i += 1;
    }
    proof {
        assert(js.take(n as int) =~= js);
    }
    r
}

/// Posicao de alguma ocorrencia da carta na mao.
fn posicao_carta(mao: &Vec<Carta>, alvo: &Carta) -> (r: Option<usize>)
    ensures
        r matches Some(p) ==> p < mao@.len() && mao@[p as int] == *alvo,
        r is None ==> forall|k: int| 0 <= k < mao@.len() ==> #[trigger] mao@[k] != *alvo,
{
    let n = mao.len();
    let mut i: usize = 0;
    while i < n
        invariant
            n == mao@.len(),
            i <= n,
            forall|k: int| 0 <= k < i ==> #[trigger] mao@[k] != *alvo,
        decreases n - i,
    {
        if mao[i] == *alvo {
            return Some(i);
        }
        i += 1;
    }
    None
}

/// Retira da mao uma ocorrencia de cada carta pedida, tudo ou nada:
/// devolve `true` e a mao subtraida quando o multiconjunto pedido cabe na
/// mao, e `false` com a mao intocada quando nao cabe.
fn retirar_cartas(mao: &mut Vec<Carta>, cartas: &[Carta]) -> (ok: bool)
    ensures
        ok <==> cartas@.to_multiset().subset_of(old(mao)@.to_multiset()),
        ok ==> final(mao)@.to_multiset().add(cartas@.to_multiset()) == old(mao)@.to_multiset(),
        ok ==> final(mao)@.len() + cartas@.len() == old(mao)@.len(),
        !ok ==> final(mao)@ == old(mao)@,
{
    let ghost m0 = mao@;
    let ghost pedidas = cartas@;
    let mut resto = copiar_cartas(mao.as_slice());
    let n = cartas.len();
    let mut i: usize = 0;
    while i < n
        invariant
            n == pedidas.len(),
            cartas@ == pedidas,
            i <= n,
            mao@ == m0,
            m0 == old(mao)@,
            resto@.to_multiset().add(pedidas.take(i as int).to_multiset()) == m0.to_multiset(),
            resto@.len() + i == m0.len(),
        decreases n - i,
    {
        let ghost t = pedidas.take(i + 1);
        let ghost p = pedidas.take(i as int);
        proof {
            assert(t.drop_last() =~= p);
            assert(t =~= p.push(pedidas[i as int]));
        }
        let alvo = cartas[i];
        let pos_opt = posicao_carta(&resto, &alvo);
        match pos_opt {
            None => {
                proof {
                    assert(!resto@.contains(alvo));
                    assert(resto@.to_multiset().count(alvo) == 0);
                    let cauda = pedidas.skip(i as int);
                    assert(pedidas =~= p + cauda);
                    lemma_multiset_commutative(p, cauda);
                    assert(pedidas.to_multiset() == p.to_multiset().add(cauda.to_multiset()));
                    assert(cauda[0] == alvo);
                    assert(cauda.contains(alvo));
                    assert(cauda.to_multiset().count(alvo) > 0);
                    assert(m0.to_multiset() == resto@.to_multiset().add(p.to_multiset()));
                    assert(m0.to_multiset().count(alvo) == resto@.to_multiset().count(alvo)
                        + p.to_multiset().count(alvo));
                    assert(pedidas.to_multiset().count(alvo) == p.to_multiset().count(alvo)
                        + cauda.to_multiset().count(alvo));
                    assert(pedidas.to_multiset().count(alvo) > m0.to_multiset().count(alvo));
                    assert(!pedidas.to_multiset().subset_of(m0.to_multiset()));
                }
                return false;
            },
            Some(pos) => {
                let ghost resto_antes = resto@;
                let retirada = resto.remove(pos);
                proof {
                    assert(resto@ =~= resto_antes.remove(pos as int));
                    assert(resto@.to_multiset() =~= resto_antes.to_multiset().remove(alvo));
                    assert(resto@.to_multiset().add(t.to_multiset())
                        =~= resto_antes.to_multiset().add(p.to_multiset()));
                }
            },
        }
        i += 1;
    }
    proof {
        assert(pedidas.take(n as int) =~= pedidas);
        assert(pedidas.to_multiset().subset_of(m0.to_multiset())) by {
            assert(forall|c: Carta|
                #[trigger] pedidas.to_multiset().count(c) <= resto@.to_multiset().count(c)
                    + pedidas.to_multiset().count(c));
            assert(forall|c: Carta|
                resto@.to_multiset().add(pedidas.to_multiset()).count(c) == resto@.to_multiset().count(
                    c,
                ) + pedidas.to_multiset().count(c));
        }
    }
    *mao = resto;
    true
}

/// A mao contem o multiconjunto de cartas pedido? Nao altera nada.
fn contem_cartas(mao: &Vec<Carta>, cartas: &[Carta]) -> (ok: bool)
    ensures
        ok <==> cartas@.to_multiset().subset_of(mao@.to_multiset()),
        ok ==> cartas@.len() <= mao@.len(),
{
    let mut copia = copiar_cartas(mao.as_slice());
    retirar_cartas(&mut copia, cartas)
}

/// Pontos somados de todas as cartas de uma proposta de descida.
pub open spec fn pontos_proposta(js: Seq<Vec<Carta>>) -> int {
    pontos_cartas(concat_jogos(js))
}

/// A decisao de `descer`: a primeira condicao violada, na ordem em que o
/// motor as confere, ou `None` quando a descida e aceita.
pub open spec fn motivo_descida(e: EstadoJogo, id: int, js: Seq<Vec<Carta>>) -> Option<Recusa> {
    let time = id % 2;
    if e.turno_atual as int != id {
        Some(Recusa::ForaDeTurno)
    } else if js.len() == 0 {
        Some(Recusa::NenhumJogo)
    } else if !todos_jogos_validos(js) {
        Some(Recusa::JogoInvalido)
    } else if !concat_jogos(js).to_multiset().subset_of(e.maos@[id]@.to_multiset()) {
        Some(Recusa::CartaNaoPossui)
    } else if mesa_time(e, time).len() == 0 && pontos_proposta(js) < limite_abertura(
        crate::estado::placar_time(e, time),
    ) {
        Some(Recusa::PontosInsuficientes)
    } else if e.maos@[id]@.len() == concat_jogos(js).len() {
        pode_bater_espec(e, time, js)
    } else {
        None
    }
}

/// O efeito de uma descida aceita: as cartas propostas saem da mao para
/// jogos novos na mesa do time, sob ids consecutivos; se a mao se esvazia,
/// a rodada termina em batida, com bonus, contagem e penalidades.
pub open spec fn efeito_descida(e0: EstadoJogo, e1: EstadoJogo, id: int, js: Seq<Vec<Carta>>) -> bool {
    let time = id % 2;
    let mesa0 = mesa_time(e0, time);
    let mesa1 = mesa_time(e1, time);
    let todas = concat_jogos(js);
    let vai_bater = e0.maos@[id]@.len() == todas.len();
    &&& e1.proximo_id_jogo == e0.proximo_id_jogo + js.len()
    &&& mesa1.len() == mesa0.len() + js.len()
    &&& mesa1.take(mesa0.len() as int) == mesa0
    &&& forall|i: int|
        mesa0.len() <= i < mesa1.len() ==> (#[trigger] mesa1[i]).id == e0.proximo_id_jogo + (i
            - mesa0.len()) && mesa1[i].cartas@ == js[i - mesa0.len()]@
    &&& mesa_time(e1, 1 - time) == mesa_time(e0, 1 - time)
    &&& e1.maos@.len() == 4
    &&& e1.maos@[id]@.to_multiset().add(todas.to_multiset()) == e0.maos@[id]@.to_multiset()
    &&& e1.maos@[id]@.len() + todas.len() == e0.maos@[id]@.len()
    &&& forall|i: int| 0 <= i < 4 && i != id ==> e1.maos@[i] == e0.maos@[i]
    &&& e1.baralho == e0.baralho
    &&& e1.lixo == e0.lixo
    &&& e1.tres_vermelhos_time_a == e0.tres_vermelhos_time_a
    &&& e1.tres_vermelhos_time_b == e0.tres_vermelhos_time_b
    &&& e1.rodada == e0.rodada
    &&& e1.turno_atual == e0.turno_atual
    &&& e1.pegou_lixo_nesta_rodada == e0.pegou_lixo_nesta_rodada
    &&& e1.comprou_nesta_rodada == e0.comprou_nesta_rodada
    &&& e1.baralho_acabou_nesta_rodada == e0.baralho_acabou_nesta_rodada
    &&& if vai_bater {
        &&& e1.partida_encerrada
        &&& e1.pontuacao_a as int == e0.pontuacao_a + (if time == 0 {
            100int
        } else {
            0int
        }) + parcial(e1.jogos_time_a@, e1.tres_vermelhos_time_a@) - penalidade_time(e1.maos@, 0)
        &&& e1.pontuacao_b as int == e0.pontuacao_b + (if time == 0 {
            0int
        } else {
            100int
        }) + parcial(e1.jogos_time_b@, e1.tres_vermelhos_time_b@) - penalidade_time(e1.maos@, 1)
    } else {
        &&& e1.partida_encerrada == e0.partida_encerrada
        &&& e1.pontuacao_a == e0.pontuacao_a
        &&& e1.pontuacao_b == e0.pontuacao_b
    }
}

impl EstadoJogo {
    /// Baixa jogos da mao do jogador para a mesa do seu time. Confere, na
    /// ordem: turno, proposta nao vazia, validade de cada jogo, posse das
    /// cartas, pontos de abertura na primeira descida, e a guarda de
    /// batida quando a descida esvaziaria a mao. So entao muda o estado.
    #[verifier::rlimit(80)]
    pub fn descer(&mut self, id_jogador: u32, jogos_propostos: Vec<Vec<Carta>>) -> (r: Result<
        (),
        Recusa,
    >)
        requires
            bem_formado(*old(self)),
            placar_seguro(*old(self)),
            old(self).proximo_id_jogo + jogos_propostos@.len() <= 0xffff_ffff,
        ensures
            bem_formado(*final(self)),
            r is Ok <==> motivo_descida(*old(self), id_jogador as int, jogos_propostos@) is None,
            r matches Err(m) ==> motivo_descida(*old(self), id_jogador as int, jogos_propostos@)
                == Some(m),
            r is Err ==> *final(self) == *old(self),
            r is Ok ==> efeito_descida(
                *old(self),
                *final(self),
                id_jogador as int,
                jogos_propostos@,
            ),
    {
        let ghost e0 = *old(self);
        let ghost js = jogos_propostos@;
        if self.turno_atual != id_jogador {
            return Err(Recusa::ForaDeTurno);
        }
        if jogos_propostos.is_empty() {
            return Err(Recusa::NenhumJogo);
        }
        let idx = id_jogador as usize;
        let n = jogos_propostos.len();
        let mut i: usize = 0;
        while i < n
            invariant
                n == js.len(),
                jogos_propostos@ == js,
                i <= n,
                e0 == *old(self),
                *self == e0,
                bem_formado(e0),
                self.turno_atual == id_jogador,
                js.len() > 0,
                forall|k: int| 0 <= k < i ==> jogo_valido(#[trigger] js[k]@),
            decreases n - i,
        {
            if !crate::regras::validar_jogo(jogos_propostos[i].as_slice()) {
                return Err(Recusa::JogoInvalido);
            }
            i += 1;
        }
        assert(todos_jogos_validos(js));
        let todas = achatar_jogos(&jogos_propostos);
        if !contem_cartas(&self.maos[idx], todas.as_slice()) {
            return Err(Recusa::CartaNaoPossui);
        }
        let time_impar = id_jogador % 2 == 1;
        let mesa_vazia = if time_impar {
            self.jogos_time_b.is_empty()
        } else {
            self.jogos_time_a.is_empty()
        };
        if mesa_vazia {
            proof {
                lema_limites_componentes(*self);
            }
            let total_pontos = crate::pontos::somar_pontos(todas.as_slice());
            if total_pontos < self.pontos_para_descer(id_jogador) {
                return Err(Recusa::PontosInsuficientes);
            }
        }
        let vai_bater = self.maos[idx].len() == todas.len();
        if vai_bater {
            match self.pode_bater_com_contexto(idx, jogos_propostos.as_slice()) {
                Err(m) => {
                    return Err(m);
                },
                Ok(()) => {
                },
            }
        }
        let ghost maos0 = self.maos@;
        let ok = retirar_cartas(&mut self.maos[idx], todas.as_slice());
        assert(ok);
        proof {
            assert(self.maos@ == maos0.update(idx as int, self.maos@[idx as int]));
            lema_cartas_maos_troca(maos0, idx as int, self.maos@[idx as int]);
        }
        let ghost e_meio = *self;
        let ghost tid = (id_jogador as int) % 2;
        let ghost mesa0 = mesa_time(e0, tid);
        let mut k: usize = 0;
        while k < n
            invariant
                n == js.len(),
                jogos_propostos@ == js,
                k <= n,
                todos_jogos_validos(js),
                idx as int == id_jogador as int,
                idx < 4,
                e_meio.jogos_time_a@ == e0.jogos_time_a@,
                e_meio.jogos_time_b@ == e0.jogos_time_b@,
                e_meio.proximo_id_jogo == e0.proximo_id_jogo,
                time_impar == (tid == 1),
                tid == (id_jogador as int) % 2,
                self.proximo_id_jogo == e0.proximo_id_jogo + k,
                e0.proximo_id_jogo + n <= 0xffff_ffff,
                mesa0 == mesa_time(e0, tid),
                mesa_valida(mesa0, e0.proximo_id_jogo as int),
                mesa_time(*self, 1 - tid) == mesa_time(e0, 1 - tid),
                mesa_valida(mesa_time(e0, 1 - tid), e0.proximo_id_jogo as int),
                mesa_time(*self, tid).len() == mesa0.len() + k,
                mesa_time(*self, tid).take(mesa0.len() as int) == mesa0,
                forall|i: int|
                    mesa0.len() <= i < mesa_time(*self, tid).len() ==> (#[trigger] mesa_time(
                        *self,
                        tid,
                    )[i]).id == e0.proximo_id_jogo + (i - mesa0.len()) && mesa_time(
                        *self,
                        tid,
                    )[i].cartas@ == js[i - mesa0.len()]@,
                mesa_valida(mesa_time(*self, tid), self.proximo_id_jogo as int),
                cartas_mesa(mesa_time(*self, tid)) == cartas_mesa(mesa0) + concat_jogos(
                    js.take(k as int),
                ).len(),
                *self == (EstadoJogo {
                    jogos_time_a: self.jogos_time_a,
                    jogos_time_b: self.jogos_time_b,
                    proximo_id_jogo: self.proximo_id_jogo,
                    ..e_meio
                }),
            decreases n - k,
        {
            let cartas_jogo = copiar_cartas(jogos_propostos[k].as_slice());
            let detalhe = DetalheJogo { id: self.proximo_id_jogo, cartas: cartas_jogo };
            let ghost det = detalhe;
            let ghost mesa_antes = mesa_time(*self, tid);
            if time_impar {
                self.jogos_time_b.push(detalhe);
            } else {
                self.jogos_time_a.push(detalhe);
            }
            self.proximo_id_jogo = self.proximo_id_jogo + 1;
            proof {
                let mesa = mesa_time(*self, tid);
                assert(mesa =~= mesa_antes.push(det));
                assert(mesa.drop_last() =~= mesa_antes);
                assert(det.id == e0.proximo_id_jogo + k);
                assert(det.cartas@ == js[k as int]@);
                assert(mesa.take(mesa0.len() as int) =~= mesa_antes.take(mesa0.len() as int));
                assert(forall|q: int| 0 <= q < mesa_antes.len() ==> #[trigger] mesa[q] == mesa_antes[q]);
                assert(mesa[mesa_antes.len() as int] == det);
                assert(jogo_valido(det.cartas@));
                assert(forall|q: int, w: int|
                    0 <= q < w < mesa.len() ==> mesa[q].id < mesa[w].id) by {
                    assert(forall|q: int|
                        0 <= q < mesa_antes.len() ==> (#[trigger] mesa_antes[q].id)
                            < e0.proximo_id_jogo + k);
                }
                assert(mesa_valida(mesa, e0.proximo_id_jogo + k + 1));
                assert(concat_jogos(js.take(k + 1)).len() == concat_jogos(js.take(k as int)).len()
                    + js[k as int]@.len()) by {
                    assert(js.take(k + 1).drop_last() =~= js.take(k as int));
                    assert(js.take(k + 1).last() == js[k as int]);
                }
                assert forall|i: int| mesa0.len() <= i < mesa.len() implies (#[trigger] mesa[i]).id
                    == e0.proximo_id_jogo + (i - mesa0.len()) && mesa[i].cartas@ == js[i
                    - mesa0.len()]@ by {
                    if i < mesa_antes.len() {
                        assert(mesa[i] == mesa_antes[i]);
                    } else {
                        assert(mesa[i] == det);
                    }
                }
            }
            k += 1;
        }
        proof {
            assert(js.take(n as int) =~= js);
            assert(bem_formado(*self));

        }
        let ghost e_fim = *self;
        if self.maos[idx].is_empty() {
            self.batida(id_jogador);
        }
        proof {
            assert(self.jogos_time_a@ == e_fim.jogos_time_a@);
            assert(self.jogos_time_b@ == e_fim.jogos_time_b@);
            assert(mesa_time(*self, (id_jogador as int) % 2) == mesa_time(
                e_fim,
                (id_jogador as int) % 2,
            ));
            assert(motivo_descida(e0, id_jogador as int, js) is None);
            assert(efeito_descida(e0, *self, id_jogador as int, js));
        }
        Ok(())
    }

    /// Move uma carta da mao para o topo do lixo, sem validar nada: se a
    /// carta nao esta na mao, nada acontece.
    pub fn descartar_lixo(&mut self, id_jogador: usize, carta_descarte: &Carta)
        requires
            id_jogador < old(self).maos@.len(),
        ensures
            !old(self).maos@[id_jogador as int]@.contains(*carta_descarte) ==> *final(self)
                == *old(self),
            old(self).maos@[id_jogador as int]@.contains(*carta_descarte) ==> ({
                &&& final(self).maos@[id_jogador as int]@.to_multiset().insert(*carta_descarte)
                    == old(self).maos@[id_jogador as int]@.to_multiset()
                &&& final(self).maos@[id_jogador as int]@.len() + 1 == old(self).maos@[
                    id_jogador as int
                ]@.len()
                &&& final(self).maos@.len() == old(self).maos@.len()
                &&& forall|i: int|
                    0 <= i < old(self).maos@.len() && i != id_jogador ==> final(self).maos@[i]
                        == old(self).maos@[i]
                &&& final(self).lixo@ == old(self).lixo@.push(*carta_descarte)
                &&& *final(self) == (EstadoJogo {
                    maos: final(self).maos,
                    lixo: final(self).lixo,
                    ..*old(self)
                })
            }),
            bem_formado(*old(self)) ==> bem_formado(*final(self)),
    {
        proof {
            if bem_formado(*self) {
                lema_limites_componentes(*self);
            }
        }
        let pos_opt = posicao_carta(&self.maos[id_jogador], carta_descarte);
        match pos_opt {
            None => {
                proof {
                    assert(!old(self).maos@[id_jogador as int]@.contains(*carta_descarte));
                }
            },
            Some(pos) => {
                let ghost maos0 = self.maos@;
                let ghost mao0 = self.maos@[id_jogador as int]@;
                let carta = self.maos[id_jogador].remove(pos);
                proof {
                    assert(self.maos@ == maos0.update(
                        id_jogador as int,
                        self.maos@[id_jogador as int],
                    ));
                    lema_cartas_maos_troca(maos0, id_jogador as int, self.maos@[id_jogador as int]);
                    assert(self.maos@[id_jogador as int]@ =~= mao0.remove(pos as int));
                    assert(self.maos@[id_jogador as int]@.to_multiset() =~= mao0.to_multiset().remove(
                        *carta_descarte,
                    ));
                    assert(self.maos@[id_jogador as int]@.to_multiset().insert(*carta_descarte)
                        =~= mao0.to_multiset());
                }
                self.lixo.push(carta);
            },
        }
    }

    /// A decisao de `comprar_carta` e como a compra termina estao nos
    /// contratos: recusa se ja comprou ou ja pegou o lixo; com monte, a
    /// carta do topo entra na mao (3 vermelhos extraidos); sem monte, ou a
    /// rodada acaba por esgotamento, ou fica o aviso de ultima volta.
    pub fn comprar_carta(&mut self, id_jogador: usize) -> (r: Result<ResultadoCompra, Recusa>)
        requires
            bem_formado(*old(self)),
            placar_seguro(*old(self)),
            id_jogador < 4,
        ensures
            bem_formado(*final(self)),
            r is Err <==> motivo_compra(*old(self)) is Some,
            r matches Err(m) ==> motivo_compra(*old(self)) == Some(m),
            r is Err ==> *final(self) == *old(self),
            motivo_compra(*old(self)) is None && old(self).baralho.cartas@.len() > 0 ==> r == Ok::<ResultadoCompra, Recusa>(
                ResultadoCompra::Comprou(old(self).baralho.cartas@.last()),
            ) && efeito_compra(*old(self), *final(self), id_jogador as int),
            motivo_compra(*old(self)) is None && old(self).baralho.cartas@.len() == 0 && lixo_inaproveitavel(
                *old(self),
            ) ==> r == Ok::<ResultadoCompra, Recusa>(ResultadoCompra::Esgotado) && efeito_esgotamento(*old(self), *final(self)),
            motivo_compra(*old(self)) is None && old(self).baralho.cartas@.len() == 0
                && !lixo_inaproveitavel(*old(self)) ==> r == Ok::<ResultadoCompra, Recusa>(ResultadoCompra::UltimaChance)
                && *final(self) == (EstadoJogo {
                baralho_acabou_nesta_rodada: true,
                ..*old(self)
            }),
    {
        if self.comprou_nesta_rodada {
            return Err(Recusa::JaComprou);
        }
        if self.pegou_lixo_nesta_rodada {
            return Err(Recusa::JaPegouLixo);
        }
        if self.baralho.restantes() > 0 {
            let ghost e0 = *self;
            let comprada = self.baralho.comprar();
            if let Some(c) = comprada {
                let ghost maos0 = self.maos@;
                self.maos[id_jogador].push(c);
                proof {
                    lema_cartas_maos_troca(maos0, id_jogador as int, self.maos@[id_jogador as int]);
                    assert(self.baralho.cartas@.is_prefix_of(e0.baralho.cartas@)) by {
                        assert(self.baralho.cartas@ =~= e0.baralho.cartas@.subrange(
                            0,
                            self.baralho.cartas@.len() as int,
                        ));
                    }
                }
                let ghost e1 = *self;
                self.processar_tres_vermelhos(id_jogador);
                proof {
                    assert(self.baralho.cartas@.is_prefix_of(e0.baralho.cartas@)) by {
                        assert(self.baralho.cartas@ =~= e1.baralho.cartas@.subrange(
                            0,
                            self.baralho.cartas@.len() as int,
                        ));
                        assert(self.baralho.cartas@ =~= e0.baralho.cartas@.subrange(
                            0,
                            self.baralho.cartas@.len() as int,
                        ));
                    }
                    let cheio = e0.baralho.cartas@;
                    let topo = cheio.last();
                    let id = id_jogador as int;
                    let time = id % 2;
                    let l2 = self.baralho.cartas@.len() as int;
                    assert(c == topo);
                    assert(e1.maos@[id]@ =~= e0.maos@[id]@.push(topo));
                    assert(e1.maos@[id]@.to_multiset() =~= e0.maos@[id]@.to_multiset().insert(
                        topo,
                    ));
                    assert(e1.baralho.cartas@ =~= cheio.drop_last());
                    assert(l2 <= e1.baralho.cartas@.len());
                    assert(e1.baralho.cartas@.skip(l2) =~= cheio.subrange(
                        l2,
                        cheio.len() - 1,
                    ));
                    assert(cheio.skip(l2) =~= cheio.subrange(l2, cheio.len() - 1).push(topo));
                    assert(cheio.skip(l2).to_multiset() =~= e1.baralho.cartas@.skip(
                        l2,
                    ).to_multiset().insert(topo));
                    assert(tres_time(e1, time) == tres_time(e0, time));
                    assert(self.maos@[id]@.to_multiset().add(
                        tres_time(*self, time).skip(
                            tres_time(e0, time).len() as int,
                        ).to_multiset(),
                    ) == e1.maos@[id]@.to_multiset().add(
                        e1.baralho.cartas@.skip(l2).to_multiset(),
                    ));
                    assert(e1.maos@[id]@.to_multiset().add(
                        e1.baralho.cartas@.skip(l2).to_multiset(),
                    ) =~= e0.maos@[id]@.to_multiset().add(cheio.skip(l2).to_multiset()));
                }
                self.comprou_nesta_rodada = true;
                return Ok(ResultadoCompra::Comprou(c));
            }
            proof {
                assert(false);
            }
        }
        let lixo_vazio = self.lixo.is_empty();
        let lixo_travado = if self.lixo.len() > 0 {
            let topo = self.lixo[self.lixo.len() - 1];
            topo.trava_o_lixo()
        } else {
            false
        };
        if lixo_vazio || lixo_travado {
            self.encerrar_partida_por_esgotamento();
            Ok(ResultadoCompra::Esgotado)
        } else {
            self.baralho_acabou_nesta_rodada = true;
            Ok(ResultadoCompra::UltimaChance)
        }
    }

    /// Descarta uma carta e encerra o turno. Confere turno, fase, a
    /// proibicao de bater no turno do lixo, a posse da carta e a guarda de
    /// canastra limpa; so entao move a carta, e fecha a rodada (batida ou
    /// esgotamento) ou passa o turno.
    pub fn descartar_e_passar_turno(&mut self, id_jogador: u32, carta_descarte: Carta) -> (r:
        Result<(), Recusa>)
        requires
            bem_formado(*old(self)),
            placar_seguro(*old(self)),
        ensures
            bem_formado(*final(self)),
            r is Ok <==> motivo_descarte(*old(self), id_jogador as int, carta_descarte) is None,
            r matches Err(m) ==> motivo_descarte(*old(self), id_jogador as int, carta_descarte)
                == Some(m),
            r is Err ==> *final(self) == *old(self),
            r is Ok ==> efeito_descarte(*old(self), *final(self), id_jogador as int, carta_descarte),
    {
        let ghost e0 = *old(self);
        if self.turno_atual != id_jogador {
            return Err(Recusa::ForaDeTurno);
        }
        if !self.comprou_nesta_rodada && !self.pegou_lixo_nesta_rodada {
            return Err(Recusa::PrecisaComprar);
        }
        let idx = id_jogador as usize;
        let pos_opt = posicao_carta(&self.maos[idx], &carta_descarte);
        proof {
            match pos_opt {
                Some(p) => {
                    assert(e0.maos@[idx as int]@.contains(carta_descarte));
                },
                None => {
                    assert(!e0.maos@[idx as int]@.contains(carta_descarte)) by {
                        if e0.maos@[idx as int]@.contains(carta_descarte) {
                            let w = choose|k: int|
                                0 <= k < e0.maos@[idx as int]@.len() && e0.maos@[idx as int]@[k]
                                    == carta_descarte;
                        }
                    }
                },
            }
        }
        if self.pegou_lixo_nesta_rodada && self.maos[idx].len() == 1 {
            if pos_opt.is_some() {
                return Err(Recusa::BatidaAposLixo);
            }
        }
        let pos = match pos_opt {
            None => {
                return Err(Recusa::CartaNaoEncontrada);
            },
            Some(p) => p,
        };
        if self.maos[idx].len() == 1 {
            if !self.conferir_real(idx) {
                return Err(Recusa::SemCanastraReal);
            }
        }
        let ghost maos0 = self.maos@;
        let ghost mao0 = self.maos@[idx as int]@;
        let carta = self.maos[idx].remove(pos);
        self.lixo.push(carta);
        proof {
            assert(self.maos@ == maos0.update(idx as int, self.maos@[idx as int]));
            lema_cartas_maos_troca(maos0, idx as int, self.maos@[idx as int]);
            assert(self.maos@[idx as int]@ =~= mao0.remove(pos as int));
            assert(self.maos@[idx as int]@.to_multiset() =~= mao0.to_multiset().remove(
                carta_descarte,
            ));
            assert(self.maos@[idx as int]@.to_multiset().insert(carta_descarte)
                =~= mao0.to_multiset());
            assert(bem_formado(*self));
        }
        if self.maos[idx].is_empty() {
            self.batida(id_jogador);
            proof {
                assert(efeito_descarte(e0, *self, id_jogador as int, carta_descarte));
            }
            return Ok(());
        }
        if self.baralho_acabou_nesta_rodada {
            self.encerrar_partida_por_esgotamento();
            proof {
                assert(efeito_descarte(e0, *self, id_jogador as int, carta_descarte));
            }
            return Ok(());
        }
        self.turno_atual = (self.turno_atual + 1) % 4;
        self.pegou_lixo_nesta_rodada = false;
        self.comprou_nesta_rodada = false;
        Ok(())
    }

    /// Junta cartas da mao a um jogo ja baixado do time do jogador. O jogo
    /// precisa existir, as cartas precisam estar na mao e a formacao
    /// resultante precisa seguir valida; se a mao se esvazia vale a guarda
    /// de batida, avaliada antes de qualquer mudanca.
    #[verifier::rlimit(60)]
    pub fn ajuntar(&mut self, id_jogador: u32, id_jogo: u32, cartas_novas: Vec<Carta>) -> (r:
        Result<(), Recusa>)
        requires
            bem_formado(*old(self)),
            placar_seguro(*old(self)),
            id_jogador < 4,
        ensures
            bem_formado(*final(self)),
            r is Ok <==> motivo_ajunte(*old(self), id_jogador as int, id_jogo, cartas_novas@)
                is None,
            r matches Err(m) ==> motivo_ajunte(
                *old(self),
                id_jogador as int,
                id_jogo,
                cartas_novas@,
            ) == Some(m),
            r is Err ==> *final(self) == *old(self),
            r is Ok ==> efeito_ajunte(
                *old(self),
                *final(self),
                id_jogador as int,
                id_jogo,
                cartas_novas@,
            ),
    {
        let ghost e0 = *old(self);
        let ghost tid = (id_jogador as int) % 2;
        let idx = id_jogador as usize;
        let time_impar = id_jogador % 2 == 1;
        let ghost mesa0 = mesa_time(e0, tid);
        let pos_opt = if time_impar {
            Self::achar_jogo(&self.jogos_time_b, id_jogo)
        } else {
            Self::achar_jogo(&self.jogos_time_a, id_jogo)
        };
        let pos = match pos_opt {
            None => {
                proof {
                    assert(!tem_jogo(mesa0, id_jogo)) by {
                        if tem_jogo(mesa0, id_jogo) {
                            let w = choose|i: int|
                                0 <= i < mesa0.len() && (#[trigger] mesa0[i].id) == id_jogo;
                        }
                    }
                }
                return Err(Recusa::JogoNaoEncontrado);
            },
            Some(p) => {
                proof {
                    lema_pos_jogo_unica(mesa0, id_jogo, p as int);
                }
                p
            },
        };
        if !contem_cartas(&self.maos[idx], cartas_novas.as_slice()) {
            return Err(Recusa::CartaNaoPossui);
        }
        let mut combinado = if time_impar {
            copiar_cartas(self.jogos_time_b[pos].cartas.as_slice())
        } else {
            copiar_cartas(self.jogos_time_a[pos].cartas.as_slice())
        };
        let mut extra = copiar_cartas(cartas_novas.as_slice());
        combinado.append(&mut extra);
        proof {
            assert(combinado@ == mesa0[pos as int].cartas@ + cartas_novas@);
        }
        if !crate::regras::validar_jogo(combinado.as_slice()) {
            return Err(Recusa::AjunteInvalido);
        }
        let vai_bater = self.maos[idx].len() == cartas_novas.len();
        if vai_bater {
            if self.pegou_lixo_nesta_rodada {
                return Err(Recusa::BatidaAposLixo);
            }
            let tem_real = Self::tem_canastra_real_fora(
                if time_impar {
                    &self.jogos_time_b
                } else {
                    &self.jogos_time_a
                },
                pos,
            ) || (combinado.len() >= 7 && !crate::regras::tem_coringa(combinado.as_slice()));
            if !tem_real {
                proof {
                    assert(!tem_real_apos_troca(mesa0, pos as int, combinado@));
                }
                return Err(Recusa::SemCanastraReal);
            }
        }
        let ok = retirar_cartas(&mut self.maos[idx], cartas_novas.as_slice());
        assert(ok);
        proof {
            assert(self.maos@ == e0.maos@.update(idx as int, self.maos@[idx as int]));
            lema_cartas_maos_troca(e0.maos@, idx as int, self.maos@[idx as int]);
        }
        let ghost comb = combinado@;
        let novo = DetalheJogo { id: id_jogo, cartas: combinado };
        let ghost novo_g = novo;
        let ghost mesa_antes = mesa_time(*self, tid);
        if time_impar {
            self.jogos_time_b[pos] = novo;
        } else {
            self.jogos_time_a[pos] = novo;
        }
        proof {
            let mesa = mesa_time(*self, tid);
            assert(mesa =~= mesa_antes.update(pos as int, novo_g));
            assert(novo_g.cartas@ == comb);
            assert(forall|i: int| 0 <= i < mesa.len() && i != pos ==> mesa[i] == mesa_antes[i]);
            crate::estado::lema_cartas_mesa_troca(mesa_antes, pos as int, novo_g);
            assert(mesa_valida(mesa, self.proximo_id_jogo as int)) by {
                assert(forall|i: int, j: int|
                    0 <= i < j < mesa.len() ==> mesa[i].id < mesa[j].id) by {
                    assert(forall|i: int, j: int|
                        0 <= i < j < mesa_antes.len() ==> mesa_antes[i].id < mesa_antes[j].id);
                }
            }
            assert(bem_formado(*self));
        }
        let ghost e_fim = *self;
        if self.maos[idx].is_empty() {
            self.batida(id_jogador);
        }
        proof {
            assert(mesa_time(*self, tid) == mesa_time(e_fim, tid));
            assert(motivo_ajunte(e0, id_jogador as int, id_jogo, cartas_novas@) is None);
            assert(efeito_ajunte(e0, *self, id_jogador as int, id_jogo, cartas_novas@));
        }
        Ok(())
    }

    /// Compra o lixo inteiro. O jogador prova o direito usando a carta do
    /// topo em jogos novos ou em ajuntes; tudo e validado (inclusive posse
    /// e pontos de abertura) antes de qualquer mudanca. No sucesso o lixo
    /// vai para a mao, as cartas usadas descem, e comprar de novo ou bater
    /// neste turno ficam vedados.
    #[verifier::rlimit(100)]
    pub fn tentar_comprar_lixo(
        &mut self,
        jogador_id: u32,
        novos_jogos: Vec<Vec<Carta>>,
        ajuntes: Vec<(u32, Vec<Carta>)>,
    ) -> (r: Result<(), Recusa>)
        requires
            bem_formado(*old(self)),
            old(self).proximo_id_jogo + novos_jogos@.len() <= 0xffff_ffff,
        ensures
            bem_formado(*final(self)),
            r is Ok <==> motivo_lixo(*old(self), jogador_id as int, novos_jogos@, ajuntes@)
                is None,
            r matches Err(m) ==> motivo_lixo(*old(self), jogador_id as int, novos_jogos@, ajuntes@)
                == Some(m),
            r is Err ==> *final(self) == *old(self),
            r is Ok ==> efeito_lixo(
                *old(self),
                *final(self),
                jogador_id as int,
                novos_jogos@,
                ajuntes@,
            ),
    {
        let ghost e0 = *old(self);
        let ghost tid = (jogador_id as int) % 2;
        let ghost nv = novos_jogos@;
        let ghost aj = ajuntes@;
        if self.turno_atual != jogador_id {
            return Err(Recusa::ForaDeTurno);
        }
        if self.comprou_nesta_rodada {
            return Err(Recusa::JaComprou);
        }
        if self.lixo.is_empty() {
            return Err(Recusa::LixoVazio);
        }
        let topo = self.lixo[self.lixo.len() - 1];
        if topo.trava_o_lixo() {
            return Err(Recusa::LixoTravado);
        }
        let idx = jogador_id as usize;
        let time_impar = jogador_id % 2 == 1;
        let ghost mesa0 = mesa_time(e0, tid);
        // A carta do topo foi usada?
        let mut usado = false;
        let n_novos = novos_jogos.len();
        let mut i: usize = 0;
        while i < n_novos
            invariant
                n_novos == nv.len(),
                novos_jogos@ == nv,
                aj == ajuntes@,
                i <= n_novos,
                usado ==> topo_usado(mesa0, topo, nv, aj),
                !usado ==> forall|k: int|
                    0 <= k < i ==> !((#[trigger] nv[k])@.contains(topo) && nv[k]@.len() >= 3),
            decreases n_novos - i,
        {
            if !usado && novos_jogos[i].len() >= 3 {
                let acha = posicao_carta(&novos_jogos[i], &topo);
                match acha {
                    Some(_) => {
                        proof {
                            assert(nv[i as int]@.contains(topo));
                        }
                        usado = true;
                    },
                    None => {
                        proof {
                            assert(!nv[i as int]@.contains(topo)) by {
                                if nv[i as int]@.contains(topo) {
                                    let w = choose|k: int|
                                        0 <= k < nv[i as int]@.len() && nv[i as int]@[k] == topo;
                                }
                            }
                        }
                    },
                }
            }
            i += 1;
        }
        let n_ajs = ajuntes.len();
        let mut j: usize = 0;
        while j < n_ajs
            invariant
                n_ajs == aj.len(),
                ajuntes@ == aj,
                novos_jogos@ == nv,
                j <= n_ajs,
                tid == (jogador_id as int) % 2,
                time_impar == (tid == 1),
                mesa_time(*self, tid) == mesa0,
                mesa_valida(mesa0, e0.proximo_id_jogo as int),
                usado ==> topo_usado(mesa0, topo, nv, aj),
                !usado ==> forall|k: int|
                    0 <= k < nv.len() ==> !((#[trigger] nv[k])@.contains(topo) && nv[k]@.len()
                        >= 3),
                !usado ==> forall|k: int|
                    0 <= k < j ==> !(tem_jogo(mesa0, (#[trigger] aj[k]).0) && aj[k].1@.contains(
                        topo,
                    ) && mesa0[pos_jogo(mesa0, aj[k].0)].cartas@.len() + aj[k].1@.len() >= 3),
            decreases n_ajs - j,
        {
            if !usado {
                let alvo_id = ajuntes[j].0;
                let acha_j = if time_impar {
                    Self::achar_jogo(&self.jogos_time_b, alvo_id)
                } else {
                    Self::achar_jogo(&self.jogos_time_a, alvo_id)
                };
                match acha_j {
                    None => {
                        proof {
                            assert(!tem_jogo(mesa0, aj[j as int].0)) by {
                                if tem_jogo(mesa0, aj[j as int].0) {
                                    let w = choose|q: int|
                                        0 <= q < mesa0.len() && (#[trigger] mesa0[q].id) == aj[
                                            j as int
                                        ].0;
                                }
                            }
                        }
                    },
                    Some(p) => {
                        proof {
                            lema_pos_jogo_unica(mesa0, aj[j as int].0, p as int);
                        }
                        let c_len = if time_impar {
                            self.jogos_time_b[p].cartas.len()
                        } else {
                            self.jogos_time_a[p].cartas.len()
                        };
                        let a_len = ajuntes[j].1.len();
                        let tamanho_ok = if c_len >= 3 || a_len >= 3 {
                            true
                        } else {
                            c_len + a_len >= 3
                        };
                        if tamanho_ok {
                            let acha_c = posicao_carta(&ajuntes[j].1, &topo);
                            match acha_c {
                                Some(_) => {
                                    proof {
                                        assert(aj[j as int].1@.contains(topo));
                                        assert(topo_usado(mesa0, topo, nv, aj));
                                    }
                                    usado = true;
                                },
                                None => {
                                    proof {
                                        assert(!aj[j as int].1@.contains(topo)) by {
                                            if aj[j as int].1@.contains(topo) {
                                                let w = choose|k: int|
                                                    0 <= k < aj[j as int].1@.len() && aj[
                                                        j as int
                                                    ].1@[k] == topo;
                                            }
                                        }
                                    }
                                },
                            }
                        }
                    },
                }
            }
            j += 1;
        }
        if !usado {
            proof {
                assert(!topo_usado(mesa0, topo, nv, aj)) by {
                    if exists|i: int|
                        0 <= i < nv.len() && (#[trigger] nv[i])@.contains(topo) && nv[i]@.len()
                            >= 3 {
                        let w = choose|i: int|
                            0 <= i < nv.len() && (#[trigger] nv[i])@.contains(topo) && nv[i]@.len()
                                >= 3;
                    }
                    if exists|i: int|
                        0 <= i < aj.len() && tem_jogo(mesa0, (#[trigger] aj[i]).0)
                            && aj[i].1@.contains(topo) && mesa0[pos_jogo(mesa0, aj[i].0)].cartas@.len()
                            + aj[i].1@.len() >= 3 {
                        let w = choose|i: int|
                            0 <= i < aj.len() && tem_jogo(mesa0, (#[trigger] aj[i]).0)
                                && aj[i].1@.contains(topo) && mesa0[pos_jogo(
                                mesa0,
                                aj[i].0,
                            )].cartas@.len() + aj[i].1@.len() >= 3;
                    }
                }
            }
            return Err(Recusa::TopoNaoUsado);
        }
        // Jogos novos validos?
        let mut v: usize = 0;
        while v < n_novos
            invariant
                n_novos == nv.len(),
                novos_jogos@ == nv,
                ajuntes@ == aj,
                v <= n_novos,
                e0 == *old(self),
                *self == e0,
                bem_formado(e0),
                e0.turno_atual == jogador_id,
                !e0.comprou_nesta_rodada,
                e0.lixo@.len() > 0,
                !trava_lixo(e0.lixo@.last()),
                topo == e0.lixo@.last(),
                tid == (jogador_id as int) % 2,
                mesa0 == mesa_time(e0, tid),
                topo_usado(mesa0, topo, nv, aj),
                forall|k: int| 0 <= k < v ==> jogo_valido(#[trigger] nv[k]@),
            decreases n_novos - v,
        {
            if !crate::regras::validar_jogo(novos_jogos[v].as_slice()) {
                return Err(Recusa::JogoInvalido);
            }
            v += 1;
        }
        assert(todos_jogos_validos(nv));
        // Simula os ajuntes sobre uma copia da mesa do time.
        let mut sim: Vec<DetalheJogo> = Vec::new();
        let n_mesa = if time_impar {
            self.jogos_time_b.len()
        } else {
            self.jogos_time_a.len()
        };
        let mut c: usize = 0;
        while c < n_mesa
            invariant
                n_mesa == mesa0.len(),
                tid == (jogador_id as int) % 2,
                time_impar == (tid == 1),
                mesa_time(*self, tid) == mesa0,
                c <= n_mesa,
                sim@.len() == c,
                forall|k: int|
                    0 <= k < c ==> (#[trigger] sim@[k]).id == mesa0[k].id && sim@[k].cartas@
                        == mesa0[k].cartas@,
            decreases n_mesa - c,
        {
            let copia = if time_impar {
                copiar_cartas(self.jogos_time_b[c].cartas.as_slice())
            } else {
                copiar_cartas(self.jogos_time_a[c].cartas.as_slice())
            };
            let ident = if time_impar {
                self.jogos_time_b[c].id
            } else {
                self.jogos_time_a[c].id
            };
            sim.push(DetalheJogo { id: ident, cartas: copia });
            c += 1;
        }
        proof {
            assert(modelo_mesa(sim@) =~= modelo_mesa(mesa0));
            assert(aj.take(0) =~= Seq::<(u32, Vec<Carta>)>::empty());
            lema_cartas_mesa_congruente(sim@, mesa0);
        }
        let mut a: usize = 0;
        while a < n_ajs
            invariant
                n_ajs == aj.len(),
                ajuntes@ == aj,
                novos_jogos@ == nv,
                tid == (jogador_id as int) % 2,
                time_impar == (tid == 1),
                e0 == *old(self),
                *self == e0,
                bem_formado(e0),
                mesa_valida(mesa0, e0.proximo_id_jogo as int),
                e0.turno_atual == jogador_id,
                !e0.comprou_nesta_rodada,
                e0.lixo@.len() > 0,
                !trava_lixo(e0.lixo@.last()),
                topo == e0.lixo@.last(),
                tid == (jogador_id as int) % 2,
                mesa0 == mesa_time(e0, tid),
                topo_usado(mesa0, topo, nv, aj),
                todos_jogos_validos(nv),
                a <= n_ajs,
                sim@.len() == mesa0.len(),
                forall|k: int| 0 <= k < sim@.len() ==> (#[trigger] sim@[k]).id == mesa0[k].id,
                forall|k: int| 0 <= k < sim@.len() ==> jogo_valido(#[trigger] sim@[k].cartas@)
                    || mesa0[k].cartas@ == sim@[k].cartas@,
                aplicar_ajuntes(modelo_mesa(mesa0), aj.take(a as int)) == Ok::<
                    Seq<(u32, Seq<Carta>)>,
                    Recusa,
                >(modelo_mesa(sim@)),
                cartas_mesa(sim@) == cartas_mesa(mesa0) + concat_ajuntes(aj.take(a as int)).len(),
            decreases n_ajs - a,
        {
            proof {
                assert(aj.take(a + 1).drop_last() =~= aj.take(a as int));
                assert(aj.take(a + 1).last() == aj[a as int]);
            }
            let alvo_id = ajuntes[a].0;
            let acha_s = Self::achar_jogo(&sim, alvo_id);
            let p = match acha_s {
                None => {
                    proof {
                        assert(!tem_jogo_m(modelo_mesa(sim@), alvo_id)) by {
                            if tem_jogo_m(modelo_mesa(sim@), alvo_id) {
                                let w = choose|q: int|
                                    0 <= q < modelo_mesa(sim@).len() && (#[trigger] modelo_mesa(
                                        sim@,
                                    )[q].0) == alvo_id;
                                assert(sim@[w].id == alvo_id);
                            }
                        }
                        assert(aplicar_ajuntes(modelo_mesa(mesa0), aj.take(a + 1)) == Err::<
                            Seq<(u32, Seq<Carta>)>,
                            Recusa,
                        >(Recusa::JogoNaoEncontrado));
                        lema_aplicar_erro_persiste(modelo_mesa(mesa0), aj, a + 1);
                    }
                    return Err(Recusa::JogoNaoEncontrado);
                },
                Some(p) => p,
            };
            proof {
                assert(forall|q: int, w: int|
                    0 <= q < w < modelo_mesa(sim@).len() ==> modelo_mesa(sim@)[q].0 < modelo_mesa(
                        sim@,
                    )[w].0) by {
                    assert(forall|q: int|
                        0 <= q < sim@.len() ==> (#[trigger] modelo_mesa(sim@)[q]).0 == sim@[q].id);
                }
                assert(modelo_mesa(sim@)[p as int].0 == alvo_id);
                lema_pos_jogo_m_unica(modelo_mesa(sim@), alvo_id, p as int);
            }
            let mut combinado = copiar_cartas(sim[p].cartas.as_slice());
            let mut extra = copiar_cartas(ajuntes[a].1.as_slice());
            combinado.append(&mut extra);
            proof {
                assert(combinado@ == modelo_mesa(sim@)[p as int].1 + aj[a as int].1@);
            }
            if !crate::regras::validar_jogo(combinado.as_slice()) {
                proof {
                    assert(aplicar_ajuntes(modelo_mesa(mesa0), aj.take(a + 1)) == Err::<
                        Seq<(u32, Seq<Carta>)>,
                        Recusa,
                    >(Recusa::AjunteInvalido));
                    lema_aplicar_erro_persiste(modelo_mesa(mesa0), aj, a + 1);
                }
                return Err(Recusa::AjunteInvalido);
            }
            let ghost sim_antes = sim@;
            let ghost comb = combinado@;
            let novo = DetalheJogo { id: alvo_id, cartas: combinado };
            let ghost novo_g = novo;
            sim[p] = novo;
            proof {
                assert(sim@ =~= sim_antes.update(p as int, novo_g));
                assert(modelo_mesa(sim@) =~= modelo_mesa(sim_antes).update(
                    p as int,
                    (alvo_id, comb),
                ));
                crate::estado::lema_cartas_mesa_troca(sim_antes, p as int, novo_g);
            }
            a += 1;
        }
        proof {
            assert(aj.take(n_ajs as int) =~= aj);
        }
        // Posse: as cartas usadas precisam estar na mao mais o lixo.
        let mut todas = achatar_jogos(&novos_jogos);
        let mut cartas_ajs = Self::achatar_ajuntes(&ajuntes);
        todas.append(&mut cartas_ajs);
        let mut juntas = copiar_cartas(self.maos[idx].as_slice());
        let mut lixo_copia = copiar_cartas(self.lixo.as_slice());
        juntas.append(&mut lixo_copia);
        proof {
            lemma_multiset_commutative(e0.maos@[idx as int]@, e0.lixo@);
        }
        if !contem_cartas(&juntas, todas.as_slice()) {
            return Err(Recusa::CartaNaoPossui);
        }
        // Abertura: pontos minimos na primeira descida do time.
        let mesa_vazia = if time_impar {
            self.jogos_time_b.is_empty()
        } else {
            self.jogos_time_a.is_empty()
        };
        if mesa_vazia {
            proof {
                lema_limites_componentes(*self);
            }
            let total_pontos = crate::pontos::somar_pontos(todas.as_slice());
            if total_pontos < self.pontos_para_descer(jogador_id) {
                return Err(Recusa::PontosInsuficientes);
            }
        }
        // Execucao.
        let ghost maos0 = self.maos@;
        self.maos[idx].append(&mut self.lixo);
        proof {
            assert(self.maos@ == maos0.update(idx as int, self.maos@[idx as int]));
            lema_cartas_maos_troca(maos0, idx as int, self.maos@[idx as int]);
        }
        let ghost maos1 = self.maos@;
        let ok = retirar_cartas(&mut self.maos[idx], todas.as_slice());
        assert(ok);
        proof {
            assert(self.maos@ == maos1.update(idx as int, self.maos@[idx as int]));
            lema_cartas_maos_troca(maos1, idx as int, self.maos@[idx as int]);
        }
        let ghost sim_fim = sim@;
        if time_impar {
            self.jogos_time_b = sim;
        } else {
            self.jogos_time_a = sim;
        }
        let ghost e_meio = *self;
        let n = n_novos;
        let mut k: usize = 0;
        while k < n
            invariant
                n == nv.len(),
                novos_jogos@ == nv,
                ajuntes@ == aj,
                k <= n,
                todos_jogos_validos(nv),
                idx as int == jogador_id as int,
                idx < 4,
                tid == (jogador_id as int) % 2,
                time_impar == (tid == 1),
                e_meio.proximo_id_jogo == e0.proximo_id_jogo,
                self.proximo_id_jogo == e0.proximo_id_jogo + k,
                e0.proximo_id_jogo + n <= 0xffff_ffff,
                sim_fim == mesa_time(e_meio, tid),
                forall|q: int| 0 <= q < sim_fim.len() ==> (#[trigger] sim_fim[q]).id == mesa0[q].id,
                mesa_valida(mesa0, e0.proximo_id_jogo as int),
                mesa_valida(sim_fim, e0.proximo_id_jogo as int),
                sim_fim.len() == mesa0.len(),
                mesa_time(*self, 1 - tid) == mesa_time(e_meio, 1 - tid),
                mesa_valida(mesa_time(e_meio, 1 - tid), e0.proximo_id_jogo as int),
                mesa_time(*self, tid).len() == sim_fim.len() + k,
                mesa_time(*self, tid).take(sim_fim.len() as int) == sim_fim,
                forall|i2: int|
                    sim_fim.len() <= i2 < mesa_time(*self, tid).len() ==> (#[trigger] mesa_time(
                        *self,
                        tid,
                    )[i2]).id == e0.proximo_id_jogo + (i2 - sim_fim.len()) && mesa_time(
                        *self,
                        tid,
                    )[i2].cartas@ == nv[i2 - sim_fim.len()]@,
                mesa_valida(mesa_time(*self, tid), self.proximo_id_jogo as int),
                cartas_mesa(mesa_time(*self, tid)) == cartas_mesa(sim_fim) + concat_jogos(
                    nv.take(k as int),
                ).len(),
                *self == (EstadoJogo {
                    jogos_time_a: self.jogos_time_a,
                    jogos_time_b: self.jogos_time_b,
                    proximo_id_jogo: self.proximo_id_jogo,
                    ..e_meio
                }),
            decreases n - k,
        {
            let cartas_jogo = copiar_cartas(novos_jogos[k].as_slice());
            let detalhe = DetalheJogo { id: self.proximo_id_jogo, cartas: cartas_jogo };
            let ghost det = detalhe;
            let ghost mesa_antes = mesa_time(*self, tid);
            if time_impar {
                self.jogos_time_b.push(detalhe);
            } else {
                self.jogos_time_a.push(detalhe);
            }
            self.proximo_id_jogo = self.proximo_id_jogo + 1;
            proof {
                let mesa = mesa_time(*self, tid);
                assert(mesa =~= mesa_antes.push(det));
                assert(mesa.drop_last() =~= mesa_antes);
                assert(det.id == e0.proximo_id_jogo + k);
                assert(det.cartas@ == nv[k as int]@);
                assert(mesa.take(sim_fim.len() as int) =~= mesa_antes.take(sim_fim.len() as int));
                assert(forall|q: int|
                    0 <= q < mesa_antes.len() ==> #[trigger] mesa[q] == mesa_antes[q]);
                assert(mesa[mesa_antes.len() as int] == det);
                assert(jogo_valido(det.cartas@));
                assert(forall|q: int, w: int|
                    0 <= q < w < mesa.len() ==> mesa[q].id < mesa[w].id) by {
                    assert(forall|q: int|
                        0 <= q < mesa_antes.len() ==> (#[trigger] mesa_antes[q].id)
                            < e0.proximo_id_jogo + k);
                }
                assert(mesa_valida(mesa, e0.proximo_id_jogo + k + 1));
                assert(concat_jogos(nv.take(k + 1)).len() == concat_jogos(nv.take(k as int)).len()
                    + nv[k as int]@.len()) by {
                    assert(nv.take(k + 1).drop_last() =~= nv.take(k as int));
                    assert(nv.take(k + 1).last() == nv[k as int]);
                }
                assert forall|i2: int|
                    sim_fim.len() <= i2 < mesa.len() implies (#[trigger] mesa[i2]).id
                    == e0.proximo_id_jogo + (i2 - sim_fim.len()) && mesa[i2].cartas@ == nv[i2
                    - sim_fim.len()]@ by {
                    if i2 < mesa_antes.len() {
                        assert(mesa[i2] == mesa_antes[i2]);
                    } else {
                        assert(mesa[i2] == det);
                    }
                }
            }
            k += 1;
        }
        self.comprou_nesta_rodada = true;
        self.pegou_lixo_nesta_rodada = true;
        proof {
            assert(nv.take(n as int) =~= nv);
            assert(mesa_time(*self, tid).take(mesa0.len() as int) == sim_fim);
            assert(modelo_mesa(mesa_time(*self, tid).take(mesa0.len() as int)) == modelo_mesa(
                sim_fim,
            ));
            assert(bem_formado(*self));
            assert(motivo_lixo(e0, jogador_id as int, nv, aj) is None);
            assert(efeito_lixo(e0, *self, jogador_id as int, nv, aj));
        }
        Ok(())
    }

    /// As cartas de todos os ajuntes, achatadas numa so lista.
    fn achatar_ajuntes(ajs: &Vec<(u32, Vec<Carta>)>) -> (r: Vec<Carta>)
        ensures
            r@ == concat_ajuntes(ajs@),
    {
        let ghost a = ajs@;
        let n = ajs.len();
        let mut r: Vec<Carta> = Vec::new();
        let mut i: usize = 0;
        while i < n
            invariant
                n == a.len(),
                ajs@ == a,
                i <= n,
                r@ == concat_ajuntes(a.take(i as int)),
            decreases n - i,
        {
            proof {
                assert(a.take(i + 1).drop_last() =~= a.take(i as int));
                assert(a.take(i + 1).last() == a[i as int]);
            }
            let mut copia = copiar_cartas(ajs[i].1.as_slice());
            r.append(&mut copia);
            i += 1;
        }
        proof {
            assert(a.take(n as int) =~= a);
        }
        r
    }

    /// Posicao do jogo com o id dado, se estiver na mesa.
    fn achar_jogo(jogos: &Vec<DetalheJogo>, id: u32) -> (r: Option<usize>)
        ensures
            r matches Some(p) ==> p < jogos@.len() && jogos@[p as int].id == id,
            r is None ==> forall|i: int| 0 <= i < jogos@.len() ==> (#[trigger] jogos@[i].id) != id,
    {
        let n = jogos.len();
        let mut i: usize = 0;
        while i < n
            invariant
                n == jogos@.len(),
                i <= n,
                forall|k: int| 0 <= k < i ==> (#[trigger] jogos@[k].id) != id,
            decreases n - i,
        {
            if jogos[i].id == id {
                return Some(i);
            }
            i += 1;
        }
        None
    }

    /// O time tem canastra limpa em algum jogo fora da posicao `fora`?
    fn tem_canastra_real_fora(jogos: &Vec<DetalheJogo>, fora: usize) -> (r: bool)
        ensures
            r <==> exists|i: int|
                0 <= i < jogos@.len() && i != fora && canastra_real(#[trigger] jogos@[i].cartas@),
    {
        let n = jogos.len();
        let mut i: usize = 0;
        while i < n
            invariant
                n == jogos@.len(),
                i <= n,
                forall|k: int|
                    0 <= k < i && k != fora ==> !canastra_real(#[trigger] jogos@[k].cartas@),
            decreases n - i,
        {
            if i != fora {
                if jogos[i].cartas.len() >= 7 && !crate::regras::tem_coringa(
                    jogos[i].cartas.as_slice(),
                ) {
                    proof {
                        assert(canastra_real(jogos@[i as int].cartas@));
                    }
                    return true;
                }
            }
            i += 1;
        }
        proof {
            assert forall|i: int|
                0 <= i < jogos@.len() && i != fora implies !canastra_real(
                #[trigger] jogos@[i].cartas@,
            ) by {}
        }
        false
    }
}

/// Ha na mesa um jogo com esse id?
pub open spec fn tem_jogo(js: Seq<DetalheJogo>, id: u32) -> bool {
    exists|i: int| 0 <= i < js.len() && (#[trigger] js[i].id) == id
}

/// A posicao do jogo com esse id (os ids de uma mesa valida sao unicos).
pub open spec fn pos_jogo(js: Seq<DetalheJogo>, id: u32) -> int {
    choose|i: int| 0 <= i < js.len() && (#[trigger] js[i].id) == id
}

/// Numa mesa de ids estritamente crescentes, o id determina a posicao.
pub proof fn lema_pos_jogo_unica(js: Seq<DetalheJogo>, id: u32, p: int)
    requires
        forall|i: int, j: int| 0 <= i < j < js.len() ==> js[i].id < js[j].id,
        0 <= p < js.len(),
        js[p].id == id,
    ensures
        tem_jogo(js, id),
        pos_jogo(js, id) == p,
{
    assert(tem_jogo(js, id));
    let q = pos_jogo(js, id);
    if q < p {
        assert(js[q].id < js[p].id);
    } else if q > p {
        assert(js[p].id < js[q].id);
    }
}

/// O time do jogador ainda tem canastra limpa depois de o jogo na posicao
/// `p` ser trocado pela formacao `comb`?
pub open spec fn tem_real_apos_troca(js: Seq<DetalheJogo>, p: int, comb: Seq<Carta>) -> bool {
    (exists|i: int| 0 <= i < js.len() && i != p && canastra_real(#[trigger] js[i].cartas@))
        || canastra_real(comb)
}

/// A decisao de `ajuntar`: o jogo alvo precisa existir na mesa do time, as
/// cartas precisam estar na mao, a formacao resultante precisa ser valida,
/// e se o ajunte esvaziaria a mao vale a guarda de batida (avaliada sobre a
/// mesa ja atualizada).
pub open spec fn motivo_ajunte(e: EstadoJogo, id: int, id_jogo: u32, cs: Seq<Carta>) -> Option<
    Recusa,
> {
    let time = id % 2;
    let mesa = mesa_time(e, time);
    if !tem_jogo(mesa, id_jogo) {
        Some(Recusa::JogoNaoEncontrado)
    } else if !cs.to_multiset().subset_of(e.maos@[id]@.to_multiset()) {
        Some(Recusa::CartaNaoPossui)
    } else if !jogo_valido(mesa[pos_jogo(mesa, id_jogo)].cartas@ + cs) {
        Some(Recusa::AjunteInvalido)
    } else if e.maos@[id]@.len() == cs.len() {
        if e.pegou_lixo_nesta_rodada {
            Some(Recusa::BatidaAposLixo)
        } else if !tem_real_apos_troca(mesa, pos_jogo(mesa, id_jogo), mesa[pos_jogo(mesa, id_jogo)].cartas@ + cs) {
            Some(Recusa::SemCanastraReal)
        } else {
            None
        }
    } else {
        None
    }
}

/// O efeito de um ajunte aceito: as cartas saem da mao e se somam ao jogo
/// alvo; se a mao se esvazia, a rodada termina em batida.
pub open spec fn efeito_ajunte(
    e0: EstadoJogo,
    e1: EstadoJogo,
    id: int,
    id_jogo: u32,
    cs: Seq<Carta>,
) -> bool {
    let time = id % 2;
    let mesa0 = mesa_time(e0, time);
    let mesa1 = mesa_time(e1, time);
    let p = pos_jogo(mesa0, id_jogo);
    let vai_bater = e0.maos@[id]@.len() == cs.len();
    &&& mesa1.len() == mesa0.len()
    &&& forall|i: int| 0 <= i < mesa0.len() && i != p ==> mesa1[i] == mesa0[i]
    &&& mesa1[p].id == id_jogo
    &&& mesa1[p].cartas@ == mesa0[p].cartas@ + cs
    &&& mesa_time(e1, 1 - time) == mesa_time(e0, 1 - time)
    &&& e1.maos@.len() == 4
    &&& e1.maos@[id]@.to_multiset().add(cs.to_multiset()) == e0.maos@[id]@.to_multiset()
    &&& e1.maos@[id]@.len() + cs.len() == e0.maos@[id]@.len()
    &&& forall|i: int| 0 <= i < 4 && i != id ==> e1.maos@[i] == e0.maos@[i]
    &&& e1.baralho == e0.baralho
    &&& e1.lixo == e0.lixo
    &&& e1.tres_vermelhos_time_a == e0.tres_vermelhos_time_a
    &&& e1.tres_vermelhos_time_b == e0.tres_vermelhos_time_b
    &&& e1.rodada == e0.rodada
    &&& e1.turno_atual == e0.turno_atual
    &&& e1.proximo_id_jogo == e0.proximo_id_jogo
    &&& e1.pegou_lixo_nesta_rodada == e0.pegou_lixo_nesta_rodada
    &&& e1.comprou_nesta_rodada == e0.comprou_nesta_rodada
    &&& e1.baralho_acabou_nesta_rodada == e0.baralho_acabou_nesta_rodada
    &&& if vai_bater {
        &&& e1.partida_encerrada
        &&& e1.pontuacao_a as int == e0.pontuacao_a + (if time == 0 {
            100int
        } else {
            0int
        }) + parcial(e1.jogos_time_a@, e1.tres_vermelhos_time_a@) - penalidade_time(e1.maos@, 0)
        &&& e1.pontuacao_b as int == e0.pontuacao_b + (if time == 0 {
            0int
        } else {
            100int
        }) + parcial(e1.jogos_time_b@, e1.tres_vermelhos_time_b@) - penalidade_time(e1.maos@, 1)
    } else {
        &&& e1.partida_encerrada == e0.partida_encerrada
        &&& e1.pontuacao_a == e0.pontuacao_a
        &&& e1.pontuacao_b == e0.pontuacao_b
    }
}

/// O modelo de uma mesa: o id e as cartas de cada jogo, na ordem.
pub open spec fn modelo_mesa(js: Seq<DetalheJogo>) -> Seq<(u32, Seq<Carta>)> {
    js.map_values(|d: DetalheJogo| (d.id, d.cartas@))
}

/// Ha no modelo um jogo com esse id?
pub open spec fn tem_jogo_m(m: Seq<(u32, Seq<Carta>)>, id: u32) -> bool {
    exists|i: int| 0 <= i < m.len() && (#[trigger] m[i].0) == id
}

/// A posicao do jogo com esse id no modelo.
pub open spec fn pos_jogo_m(m: Seq<(u32, Seq<Carta>)>, id: u32) -> int {
    choose|i: int| 0 <= i < m.len() && (#[trigger] m[i].0) == id
}

/// Com ids estritamente crescentes, o id determina a posicao no modelo.
pub proof fn lema_pos_jogo_m_unica(m: Seq<(u32, Seq<Carta>)>, id: u32, p: int)
    requires
        forall|i: int, j: int| 0 <= i < j < m.len() ==> m[i].0 < m[j].0,
        0 <= p < m.len(),
        m[p].0 == id,
    ensures
        tem_jogo_m(m, id),
        pos_jogo_m(m, id) == p,
{
    assert(tem_jogo_m(m, id));
    let q = pos_jogo_m(m, id);
    if q < p {
        assert(m[q].0 < m[p].0);
    } else if q > p {
        assert(m[p].0 < m[q].0);
    }
}

/// Aplica os ajuntes ao modelo da mesa, um por um e na ordem dada, parando
/// na primeira falha: alvo inexistente, ou formacao resultante invalida.
pub open spec fn aplicar_ajuntes(m: Seq<(u32, Seq<Carta>)>, ajs: Seq<(u32, Vec<Carta>)>) -> Result<
    Seq<(u32, Seq<Carta>)>,
    Recusa,
>
    decreases ajs.len(),
{
    if ajs.len() == 0 {
        Ok(m)
    } else {
        match aplicar_ajuntes(m, ajs.drop_last()) {
            Err(e) => Err(e),
            Ok(m2) => {
                let id = ajs.last().0;
                let cs = ajs.last().1;
                if !tem_jogo_m(m2, id) {
                    Err(Recusa::JogoNaoEncontrado)
                } else {
                    let p = pos_jogo_m(m2, id);
                    let comb = m2[p].1 + cs@;
                    if !jogo_valido(comb) {
                        Err(Recusa::AjunteInvalido)
                    } else {
                        Ok(m2.update(p, (id, comb)))
                    }
                }
            },
        }
    }
}

/// Uma falha num prefixo dos ajuntes e a falha do todo.
pub proof fn lema_aplicar_erro_persiste(
    m: Seq<(u32, Seq<Carta>)>,
    ajs: Seq<(u32, Vec<Carta>)>,
    j: int,
)
    requires
        0 <= j <= ajs.len(),
        aplicar_ajuntes(m, ajs.take(j)) is Err,
    ensures
        aplicar_ajuntes(m, ajs) == aplicar_ajuntes(m, ajs.take(j)),
    decreases ajs.len() - j,
{
    if j < ajs.len() {
        assert(ajs.take(j + 1).drop_last() =~= ajs.take(j));
        lema_aplicar_erro_persiste(m, ajs, j + 1);
    } else {
        assert(ajs.take(j) =~= ajs);
    }
}

/// As cartas de todos os ajuntes, concatenadas na ordem.
pub open spec fn concat_ajuntes(ajs: Seq<(u32, Vec<Carta>)>) -> Seq<Carta>
    decreases ajs.len(),
{
    if ajs.len() == 0 {
        Seq::empty()
    } else {
        concat_ajuntes(ajs.drop_last()) + ajs.last().1@
    }
}

/// A carta do topo do lixo foi usada num jogo novo de 3+ cartas, ou num
/// ajunte cujo jogo resultante tem 3+ cartas.
pub open spec fn topo_usado(
    mesa: Seq<DetalheJogo>,
    topo: Carta,
    novos: Seq<Vec<Carta>>,
    ajs: Seq<(u32, Vec<Carta>)>,
) -> bool {
    (exists|i: int|
        0 <= i < novos.len() && (#[trigger] novos[i])@.contains(topo) && novos[i]@.len() >= 3) || (
    exists|i: int|
        0 <= i < ajs.len() && tem_jogo(mesa, (#[trigger] ajs[i]).0) && ajs[i].1@.contains(topo)
            && mesa[pos_jogo(mesa, ajs[i].0)].cartas@.len() + ajs[i].1@.len() >= 3)
}

/// A decisao de `tentar_comprar_lixo`, na ordem das conferencias: turno,
/// compra ja feita, lixo vazio, lixo travado, uso da carta do topo,
/// validade dos jogos novos, validade dos ajuntes em sequencia, posse das
/// cartas (mao mais lixo) e pontos de abertura na primeira descida.
pub open spec fn motivo_lixo(
    e: EstadoJogo,
    id: int,
    novos: Seq<Vec<Carta>>,
    ajs: Seq<(u32, Vec<Carta>)>,
) -> Option<Recusa> {
    let time = id % 2;
    let mesa = mesa_time(e, time);
    let todas = concat_jogos(novos) + concat_ajuntes(ajs);
    if e.turno_atual as int != id {
        Some(Recusa::ForaDeTurno)
    } else if e.comprou_nesta_rodada {
        Some(Recusa::JaComprou)
    } else if e.lixo@.len() == 0 {
        Some(Recusa::LixoVazio)
    } else if trava_lixo(e.lixo@.last()) {
        Some(Recusa::LixoTravado)
    } else if !topo_usado(mesa, e.lixo@.last(), novos, ajs) {
        Some(Recusa::TopoNaoUsado)
    } else if !todos_jogos_validos(novos) {
        Some(Recusa::JogoInvalido)
    } else {
        match aplicar_ajuntes(modelo_mesa(mesa), ajs) {
            Err(m) => Some(m),
            Ok(_) => {
                if !todas.to_multiset().subset_of(
                    e.maos@[id]@.to_multiset().add(e.lixo@.to_multiset()),
                ) {
                    Some(Recusa::CartaNaoPossui)
                } else if mesa.len() == 0 && pontos_cartas(todas) < limite_abertura(
                    crate::estado::placar_time(e, time),
                ) {
                    Some(Recusa::PontosInsuficientes)
                } else {
                    None
                }
            },
        }
    }
}

/// O efeito de uma compra de lixo aceita: o lixo inteiro entra na mao, as
/// cartas usadas saem dela, os ajuntes se somam aos jogos alvo e os jogos
/// novos entram na mesa sob ids consecutivos; as duas flags do turno sobem.
pub open spec fn efeito_lixo(
    e0: EstadoJogo,
    e1: EstadoJogo,
    id: int,
    novos: Seq<Vec<Carta>>,
    ajs: Seq<(u32, Vec<Carta>)>,
) -> bool {
    let time = id % 2;
    let mesa0 = mesa_time(e0, time);
    let mesa1 = mesa_time(e1, time);
    let todas = concat_jogos(novos) + concat_ajuntes(ajs);
    &&& e1.lixo@.len() == 0
    &&& e1.maos@.len() == 4
    &&& e1.maos@[id]@.to_multiset().add(todas.to_multiset()) == e0.maos@[id]@.to_multiset().add(
        e0.lixo@.to_multiset(),
    )
    &&& e1.maos@[id]@.len() + todas.len() == e0.maos@[id]@.len() + e0.lixo@.len()
    &&& forall|i: int| 0 <= i < 4 && i != id ==> e1.maos@[i] == e0.maos@[i]
    &&& mesa1.len() == mesa0.len() + novos.len()
    &&& (aplicar_ajuntes(modelo_mesa(mesa0), ajs) matches Ok(m1) && modelo_mesa(
        mesa1.take(mesa0.len() as int),
    ) == m1)
    &&& forall|i: int|
        mesa0.len() <= i < mesa1.len() ==> (#[trigger] mesa1[i]).id == e0.proximo_id_jogo + (i
            - mesa0.len()) && mesa1[i].cartas@ == novos[i - mesa0.len()]@
    &&& mesa_time(e1, 1 - time) == mesa_time(e0, 1 - time)
    &&& e1.proximo_id_jogo == e0.proximo_id_jogo + novos.len()
    &&& e1.comprou_nesta_rodada
    &&& e1.pegou_lixo_nesta_rodada
    &&& e1.baralho == e0.baralho
    &&& e1.tres_vermelhos_time_a == e0.tres_vermelhos_time_a
    &&& e1.tres_vermelhos_time_b == e0.tres_vermelhos_time_b
    &&& e1.pontuacao_a == e0.pontuacao_a
    &&& e1.pontuacao_b == e0.pontuacao_b
    &&& e1.rodada == e0.rodada
    &&& e1.turno_atual == e0.turno_atual
    &&& e1.partida_encerrada == e0.partida_encerrada
    &&& e1.baralho_acabou_nesta_rodada == e0.baralho_acabou_nesta_rodada
}

/// A decisao de `descartar_e_passar_turno`, na ordem das conferencias:
/// turno, fase (e preciso ter comprado ou pegado o lixo), proibicao de
/// bater no turno do lixo, posse da carta, e a guarda de canastra limpa
/// quando o descarte esvaziaria a mao.
pub open spec fn motivo_descarte(e: EstadoJogo, id: int, c: Carta) -> Option<Recusa> {
    if e.turno_atual as int != id {
        Some(Recusa::ForaDeTurno)
    } else if !e.comprou_nesta_rodada && !e.pegou_lixo_nesta_rodada {
        Some(Recusa::PrecisaComprar)
    } else if e.pegou_lixo_nesta_rodada && e.maos@[id]@.len() == 1 && e.maos@[id]@.contains(c) {
        Some(Recusa::BatidaAposLixo)
    } else if !e.maos@[id]@.contains(c) {
        Some(Recusa::CartaNaoEncontrada)
    } else if e.maos@[id]@.len() == 1 && !tem_canastra_real(mesa_time(e, id % 2)) {
        Some(Recusa::SemCanastraReal)
    } else {
        None
    }
}

/// O efeito de um descarte aceito: a carta vai da mao ao topo do lixo.
/// Se a mao se esvazia, a rodada termina em batida; se o aviso de ultima
/// volta estava de pe, termina por esgotamento; senao o turno passa
/// adiante e as flags do turno zeram.
pub open spec fn efeito_descarte(e0: EstadoJogo, e1: EstadoJogo, id: int, c: Carta) -> bool {
    let time = id % 2;
    &&& e1.maos@.len() == 4
    &&& e1.maos@[id]@.to_multiset().insert(c) == e0.maos@[id]@.to_multiset()
    &&& e1.maos@[id]@.len() + 1 == e0.maos@[id]@.len()
    &&& forall|i: int| 0 <= i < 4 && i != id ==> e1.maos@[i] == e0.maos@[i]
    &&& e1.lixo@ == e0.lixo@.push(c)
    &&& e1.baralho == e0.baralho
    &&& e1.jogos_time_a == e0.jogos_time_a
    &&& e1.jogos_time_b == e0.jogos_time_b
    &&& e1.tres_vermelhos_time_a == e0.tres_vermelhos_time_a
    &&& e1.tres_vermelhos_time_b == e0.tres_vermelhos_time_b
    &&& e1.rodada == e0.rodada
    &&& e1.proximo_id_jogo == e0.proximo_id_jogo
    &&& e1.baralho_acabou_nesta_rodada == e0.baralho_acabou_nesta_rodada
    &&& if e0.maos@[id]@.len() == 1 {
        &&& e1.partida_encerrada
        &&& e1.turno_atual == e0.turno_atual
        &&& e1.pegou_lixo_nesta_rodada == e0.pegou_lixo_nesta_rodada
        &&& e1.comprou_nesta_rodada == e0.comprou_nesta_rodada
        &&& e1.pontuacao_a as int == e0.pontuacao_a + (if time == 0 {
            100int
        } else {
            0int
        }) + parcial(e0.jogos_time_a@, e0.tres_vermelhos_time_a@) - penalidade_time(e1.maos@, 0)
        &&& e1.pontuacao_b as int == e0.pontuacao_b + (if time == 0 {
            0int
        } else {
            100int
        }) + parcial(e0.jogos_time_b@, e0.tres_vermelhos_time_b@) - penalidade_time(e1.maos@, 1)
    } else if e0.baralho_acabou_nesta_rodada {
        &&& e1.partida_encerrada
        &&& e1.turno_atual == e0.turno_atual
        &&& e1.pegou_lixo_nesta_rodada == e0.pegou_lixo_nesta_rodada
        &&& e1.comprou_nesta_rodada == e0.comprou_nesta_rodada
        &&& e1.pontuacao_a as int == e0.pontuacao_a + parcial(
            e0.jogos_time_a@,
            e0.tres_vermelhos_time_a@,
        )
        &&& e1.pontuacao_b as int == e0.pontuacao_b + parcial(
            e0.jogos_time_b@,
            e0.tres_vermelhos_time_b@,
        )
    } else {
        &&& e1.partida_encerrada == e0.partida_encerrada
        &&& e1.turno_atual == ((e0.turno_atual + 1) % 4)
        &&& !e1.pegou_lixo_nesta_rodada
        &&& !e1.comprou_nesta_rodada
        &&& e1.pontuacao_a == e0.pontuacao_a
        &&& e1.pontuacao_b == e0.pontuacao_b
    }
}

/// Como termina uma compra do monte aceita, conforme o que resta no monte
/// e no lixo: compra normal, rodada encerrada por esgotamento, ou o aviso
/// de ultima volta.
pub open spec fn desfecho_compra(e0: EstadoJogo, e1: EstadoJogo, id: int) -> bool {
    if e0.baralho.cartas@.len() > 0 {
        efeito_compra(e0, e1, id)
    } else if lixo_inaproveitavel(e0) {
        efeito_esgotamento(e0, e1)
    } else {
        e1 == (EstadoJogo { baralho_acabou_nesta_rodada: true, ..e0 })
    }
}

/// A decisao de `comprar_carta`: recusada apenas quando o jogador ja
/// comprou ou ja pegou o lixo neste turno.
pub open spec fn motivo_compra(e: EstadoJogo) -> Option<Recusa> {
    if e.comprou_nesta_rodada {
        Some(Recusa::JaComprou)
    } else if e.pegou_lixo_nesta_rodada {
        Some(Recusa::JaPegouLixo)
    } else {
        None
    }
}

/// Com o monte vazio, o lixo nao pode socorrer o jogador: ou esta vazio,
/// ou o topo o trava.
pub open spec fn lixo_inaproveitavel(e: EstadoJogo) -> bool {
    e.lixo@.len() == 0 || trava_lixo(e.lixo@.last())
}

/// O efeito de uma compra com monte: uma carta desce do topo do monte para
/// a mao (com a extracao de 3 vermelhos e reposicao), e a flag de compra
/// do turno sobe. Nada mais muda.
pub open spec fn efeito_compra(e0: EstadoJogo, e1: EstadoJogo, id: int) -> bool {
    let time = id % 2;
    &&& e1.comprou_nesta_rodada
    &&& e1.baralho.cartas@.is_prefix_of(e0.baralho.cartas@)
    &&& e1.baralho.cartas@.len() < e0.baralho.cartas@.len()
    &&& e1.maos@.len() == 4
    &&& forall|k: int|
        0 <= k < e1.maos@[id]@.len() ==> !tres_vermelho(#[trigger] e1.maos@[id]@[k])
    &&& forall|i: int| 0 <= i < 4 && i != id ==> e1.maos@[i] == e0.maos@[i]
    &&& tres_time(e1, time).len() >= tres_time(e0, time).len()
    &&& tres_time(e1, time).take(tres_time(e0, time).len() as int) == tres_time(e0, time)
    &&& forall|k: int|
        tres_time(e0, time).len() <= k < tres_time(e1, time).len() ==> tres_vermelho(
            #[trigger] tres_time(e1, time)[k],
        )
    &&& (id % 2 == 0 ==> e1.tres_vermelhos_time_b == e0.tres_vermelhos_time_b)
    &&& (id % 2 == 1 ==> e1.tres_vermelhos_time_a == e0.tres_vermelhos_time_a)
    &&& e1.maos@[id]@.to_multiset().add(
        tres_time(e1, time).skip(tres_time(e0, time).len() as int).to_multiset(),
    ) == e0.maos@[id]@.to_multiset().add(
        e0.baralho.cartas@.skip(e1.baralho.cartas@.len() as int).to_multiset(),
    )
    &&& e1 == (EstadoJogo {
        baralho: e1.baralho,
        maos: e1.maos,
        tres_vermelhos_time_a: e1.tres_vermelhos_time_a,
        tres_vermelhos_time_b: e1.tres_vermelhos_time_b,
        comprou_nesta_rodada: true,
        ..e0
    })
}

/// O efeito do encerramento por esgotamento: rodada encerrada e o saldo
/// parcial de cada time somado ao placar, sem penalidade de mao.
pub open spec fn efeito_esgotamento(e0: EstadoJogo, e1: EstadoJogo) -> bool {
    &&& e1.partida_encerrada
    &&& e1.pontuacao_a as int == e0.pontuacao_a + parcial(
        e0.jogos_time_a@,
        e0.tres_vermelhos_time_a@,
    )
    &&& e1.pontuacao_b as int == e0.pontuacao_b + parcial(
        e0.jogos_time_b@,
        e0.tres_vermelhos_time_b@,
    )
    &&& e1 == (EstadoJogo {
        pontuacao_a: e1.pontuacao_a,
        pontuacao_b: e1.pontuacao_b,
        partida_encerrada: true,
        ..e0
    })
}

/// Lei da guarda de batida para a descida: se uma descida aceita esvazia a
/// mao de um jogador, o time dele termina a jogada com pelo menos uma
/// canastra limpa na mesa.
pub proof fn lei_guarda_batida_descida(
    e0: EstadoJogo,
    e1: EstadoJogo,
    id: int,
    js: Seq<Vec<Carta>>,
)
    requires
        bem_formado(e0),
        0 <= id < 4,
        motivo_descida(e0, id, js) is None,
        efeito_descida(e0, e1, id, js),
        e1.maos@[id]@.len() == 0,
        e0.maos@[id]@.len() > 0,
    ensures
        tem_canastra_real(mesa_time(e1, id % 2)),
{
    let time = id % 2;
    let mesa0 = mesa_time(e0, time);
    let mesa1 = mesa_time(e1, time);
    assert(e0.maos@[id]@.len() == concat_jogos(js).len());
    assert(pode_bater_espec(e0, time, js) is None);
    if tem_canastra_real(mesa0) {
        let w = choose|i: int| 0 <= i < mesa0.len() && canastra_real(#[trigger] mesa0[i].cartas@);
        assert(mesa1.take(mesa0.len() as int)[w] == mesa1[w]);
        assert(canastra_real(mesa1[w].cartas@));
    } else {
        assert(algum_novo_real(js));
        let k = choose|i: int| 0 <= i < js.len() && canastra_real(#[trigger] js[i]@);
        assert(mesa1[mesa0.len() + k].cartas@ == js[k]@);
        assert(canastra_real(mesa1[mesa0.len() + k].cartas@));
    }
}

/// Lei da guarda de batida para o ajunte: se um ajunte aceito esvazia a
/// mao, o time termina com canastra limpa na mesa atualizada.
pub proof fn lei_guarda_batida_ajunte(
    e0: EstadoJogo,
    e1: EstadoJogo,
    id: int,
    id_jogo: u32,
    cs: Seq<Carta>,
)
    requires
        bem_formado(e0),
        0 <= id < 4,
        motivo_ajunte(e0, id, id_jogo, cs) is None,
        efeito_ajunte(e0, e1, id, id_jogo, cs),
        e1.maos@[id]@.len() == 0,
        e0.maos@[id]@.len() > 0,
    ensures
        tem_canastra_real(mesa_time(e1, id % 2)),
{
    let time = id % 2;
    let mesa0 = mesa_time(e0, time);
    let mesa1 = mesa_time(e1, time);
    let p = pos_jogo(mesa0, id_jogo);
    assert(tem_jogo(mesa0, id_jogo));
    assert(0 <= p < mesa0.len() && mesa0[p].id == id_jogo);
    assert(e0.maos@[id]@.len() == cs.len());
    let comb = mesa0[p].cartas@ + cs;
    assert(tem_real_apos_troca(mesa0, p, comb));
    if canastra_real(comb) {
        assert(mesa1[p].cartas@ == comb);
        assert(canastra_real(mesa1[p].cartas@));
    } else {
        let w = choose|i: int|
            0 <= i < mesa0.len() && i != p && canastra_real(#[trigger] mesa0[i].cartas@);
        assert(mesa1[w] == mesa0[w]);
        assert(canastra_real(mesa1[w].cartas@));
    }
}

/// Lei da guarda de batida para o descarte: se um descarte aceito esvazia
/// a mao, o time ja tinha (e segue tendo) canastra limpa na mesa.
pub proof fn lei_guarda_batida_descarte(e0: EstadoJogo, e1: EstadoJogo, id: int, c: Carta)
    requires
        bem_formado(e0),
        0 <= id < 4,
        motivo_descarte(e0, id, c) is None,
        efeito_descarte(e0, e1, id, c),
        e1.maos@[id]@.len() == 0,
    ensures
        tem_canastra_real(mesa_time(e1, id % 2)),
{
    assert(e0.maos@[id]@.len() == 1);
    assert(tem_canastra_real(mesa_time(e0, id % 2)));
    assert(mesa_time(e1, id % 2) == mesa_time(e0, id % 2));
}

impl EstadoJogo {
    /// Recebe a intencao de um jogador e a executa. Toda acao exige a
    /// partida em andamento e o turno do proprio jogador; dai cada variante
    /// segue a decisao (`motivo_*`) e o efeito (`efeito_*`) da acao
    /// correspondente. Recusas voltam como texto e deixam o estado intacto.
    pub fn realizar_acao(&mut self, id_jogador: u32, acao: AcaoJogador) -> (r: Result<
        String,
        String,
    >)
        requires
            bem_formado(*old(self)),
            placar_seguro(*old(self)),
            acao matches AcaoJogador::BaixarJogos { jogos } ==> old(self).proximo_id_jogo
                + jogos@.len() <= 0xffff_ffff,
            acao matches AcaoJogador::ComprarLixo { novos_jogos, cartas_em_jogos_existentes }
                ==> old(self).proximo_id_jogo + novos_jogos@.len() <= 0xffff_ffff,
        ensures
            bem_formado(*final(self)),
            r is Err ==> *final(self) == *old(self),
            old(self).partida_encerrada ==> (r matches Err(s) && s@ == texto_recusa(
                Recusa::PartidaEncerrada,
            )),
            !old(self).partida_encerrada && old(self).turno_atual != id_jogador ==> (r matches Err(
                s,
            ) && s@ == texto_recusa(Recusa::ForaDeTurno)),
            !old(self).partida_encerrada && old(self).turno_atual == id_jogador ==> ({
                &&& (acao matches AcaoJogador::ComprarBaralho ==> ((r is Ok <==> motivo_compra(
                    *old(self),
                ) is None) && (r is Ok ==> desfecho_compra(
                    *old(self),
                    *final(self),
                    id_jogador as int,
                ))))
                &&& (acao matches AcaoJogador::BaixarJogos { jogos } ==> ((r is Ok
                    <==> motivo_descida(*old(self), id_jogador as int, jogos@) is None) && (r is Ok
                    ==> efeito_descida(*old(self), *final(self), id_jogador as int, jogos@))))
                &&& (acao matches AcaoJogador::ComprarLixo {
                    novos_jogos,
                    cartas_em_jogos_existentes,
                } ==> ((r is Ok <==> motivo_lixo(
                    *old(self),
                    id_jogador as int,
                    novos_jogos@,
                    cartas_em_jogos_existentes@,
                ) is None) && (r is Ok ==> efeito_lixo(
                    *old(self),
                    *final(self),
                    id_jogador as int,
                    novos_jogos@,
                    cartas_em_jogos_existentes@,
                ))))
                &&& (acao matches AcaoJogador::Ajuntar { indice_jogo, cartas } ==> ((r is Ok
                    <==> motivo_ajunte(*old(self), id_jogador as int, indice_jogo, cartas@)
                    is None) && (r is Ok ==> efeito_ajunte(
                    *old(self),
                    *final(self),
                    id_jogador as int,
                    indice_jogo,
                    cartas@,
                ))))
                &&& (acao matches AcaoJogador::Descartar { carta } ==> ((r is Ok
                    <==> motivo_descarte(*old(self), id_jogador as int, carta) is None) && (r is Ok
                    ==> efeito_descarte(*old(self), *final(self), id_jogador as int, carta))))
                &&& (acao matches AcaoJogador::Mensagem { texto } ==> r is Ok && *final(self)
                    == *old(self))
            }),
    {
        if self.partida_encerrada {
            return Err(Recusa::PartidaEncerrada.mensagem());
        }
        if self.turno_atual != id_jogador {
            return Err(Recusa::ForaDeTurno.mensagem());
        }
        match acao {
            AcaoJogador::ComprarBaralho => {
                match self.comprar_carta(id_jogador as usize) {
                    Ok(ResultadoCompra::Comprou(_)) => Ok("Voce comprou do baralho.".to_owned()),
                    Ok(ResultadoCompra::UltimaChance) => Ok(
                        "O baralho acabou! Esta e a ultima chance: compre o lixo ou o jogo encerra.".to_owned(),
                    ),
                    Ok(ResultadoCompra::Esgotado) => Ok(
                        "O baralho acabou e o lixo esta vazio ou travado. Fim de jogo.".to_owned(),
                    ),
                    Err(m) => Err(m.mensagem()),
                }
            },
            AcaoJogador::ComprarLixo { novos_jogos, cartas_em_jogos_existentes } => {
                match self.tentar_comprar_lixo(id_jogador, novos_jogos, cartas_em_jogos_existentes) {
                    Ok(()) => Ok("Lixo comprado com sucesso e jogos baixados.".to_owned()),
                    Err(m) => Err(m.mensagem()),
                }
            },
            AcaoJogador::BaixarJogos { jogos } => {
                match self.descer(id_jogador, jogos) {
                    Ok(()) => Ok("Jogos baixados com sucesso.".to_owned()),
                    Err(m) => Err(m.mensagem()),
                }
            },
            AcaoJogador::Ajuntar { indice_jogo, cartas } => {
                match self.ajuntar(id_jogador, indice_jogo, cartas) {
                    Ok(()) => Ok("Cartas inseridas no jogo com sucesso.".to_owned()),
                    Err(m) => Err(m.mensagem()),
                }
            },
            AcaoJogador::Descartar { carta } => {
                match self.descartar_e_passar_turno(id_jogador, carta) {
                    Ok(()) => {
                        if self.partida_encerrada {
                            Ok("Fim de jogo!".to_owned())
                        } else {
                            Ok("Carta descartada. Turno passou.".to_owned())
                        }
                    },
                    Err(m) => Err(m.mensagem()),
                }
            },
            AcaoJogador::Mensagem { texto } => {
                let _ = texto;
                Ok("Mensagem enviada".to_owned())
            },
        }
    }
}

} // verus!
