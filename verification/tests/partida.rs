//! Cenarios do motor de partida: acoes de turno, recusas sem mutacao,
//! batida, esgotamento do monte e conservacao das 108 cartas.

use buracao_core::acoes::{AcaoJogador, DetalheJogo, Recusa, ResultadoCompra};
use buracao_core::baralho::{Carta, Naipe, Valor};
use buracao_core::estado::EstadoJogo;

fn carta(naipe: Naipe, valor: Valor) -> Carta {
    Carta { naipe, valor }
}

fn joker() -> Carta {
    carta(Naipe::Nenhum, Valor::Joker)
}

/// Tira do monte a primeira ocorrencia da carta pedida, preservando o
/// total de 108 cartas em circulacao no estado.
fn tirar_do_monte(e: &mut EstadoJogo, alvo: Carta) -> Carta {
    let pos = e
        .baralho
        .cartas
        .iter()
        .position(|c| *c == alvo)
        .expect("a carta pedida deveria estar no monte");
    e.baralho.cartas.remove(pos)
}

fn para_mao(e: &mut EstadoJogo, jogador: usize, cartas: &[Carta]) {
    for c in cartas {
        let tirada = tirar_do_monte(e, *c);
        e.maos[jogador].push(tirada);
    }
}

fn para_lixo(e: &mut EstadoJogo, cartas: &[Carta]) {
    for c in cartas {
        let tirada = tirar_do_monte(e, *c);
        e.lixo.push(tirada);
    }
}

fn para_mesa_a(e: &mut EstadoJogo, cartas: &[Carta]) -> u32 {
    let mut jogo = Vec::new();
    for c in cartas {
        jogo.push(tirar_do_monte(e, *c));
    }
    let id = e.proximo_id_jogo;
    e.proximo_id_jogo += 1;
    e.jogos_time_a.push(DetalheJogo { id, cartas: jogo });
    id
}

fn corrida_paus_ate_valete() -> Vec<Carta> {
    vec![
        carta(Naipe::Paus, Valor::Quatro),
        carta(Naipe::Paus, Valor::Cinco),
        carta(Naipe::Paus, Valor::Seis),
        carta(Naipe::Paus, Valor::Sete),
        carta(Naipe::Paus, Valor::Oito),
        carta(Naipe::Paus, Valor::Nove),
        carta(Naipe::Paus, Valor::Dez),
        carta(Naipe::Paus, Valor::Valete),
    ]
}

fn total_em_circulacao(e: &EstadoJogo) -> usize {
    let maos: usize = e.maos.iter().map(|m| m.len()).sum();
    let mesa_a: usize = e.jogos_time_a.iter().map(|j| j.cartas.len()).sum();
    let mesa_b: usize = e.jogos_time_b.iter().map(|j| j.cartas.len()).sum();
    e.baralho.restantes() + maos + e.lixo.len() + mesa_a + mesa_b
        + e.tres_vermelhos_time_a.len() + e.tres_vermelhos_time_b.len()
}

#[test]
fn estado_novo_tem_108_cartas() {
    let e = EstadoJogo::new();
    assert_eq!(total_em_circulacao(&e), 108);
    assert_eq!(e.maos.len(), 4);
    assert_eq!(e.turno_atual, 0);
    assert!(!e.partida_encerrada);
}

#[test]
fn dar_cartas_conserva_as_108() {
    let mut e = EstadoJogo::new();
    e.dar_cartas();
    assert_eq!(total_em_circulacao(&e), 108);
    for mao in &e.maos {
        assert_eq!(mao.len(), 15);
        assert!(mao.iter().all(|c| !c.eh_tres_vermelho()));
    }
    let guardados = e.tres_vermelhos_time_a.len() + e.tres_vermelhos_time_b.len();
    assert_eq!(e.baralho.restantes(), 48 - guardados);
    for c in e.tres_vermelhos_time_a.iter().chain(e.tres_vermelhos_time_b.iter()) {
        assert!(c.eh_tres_vermelho());
    }
}

#[test]
fn preparar_proxima_rodada_gira_o_turno() {
    let mut e = EstadoJogo::new();
    e.pontuacao_a = 120;
    e.pontuacao_b = -40;
    e.partida_encerrada = true;
    e.preparar_proxima_rodada();
    assert_eq!(e.rodada, 1);
    assert_eq!(e.turno_atual, 1);
    assert_eq!(e.pontuacao_a, 120);
    assert_eq!(e.pontuacao_b, -40);
    assert!(!e.partida_encerrada);
    assert!(!e.comprou_nesta_rodada);
    assert!(!e.pegou_lixo_nesta_rodada);
    assert!(!e.baralho_acabou_nesta_rodada);
    assert_eq!(total_em_circulacao(&e), 108);
    for mao in &e.maos {
        assert_eq!(mao.len(), 15);
    }
    let guardados = e.tres_vermelhos_time_a.len() + e.tres_vermelhos_time_b.len();
    assert_eq!(e.baralho.restantes(), 48 - guardados);
}

#[test]
fn comprar_carta_repoe_tres_vermelho() {
    let mut e = EstadoJogo::new();
    // Deixa no monte só [7 de Paus, 3 de Copas]: compra o 3 vermelho, que
    // vai para a reserva e e reposto pelo 7.
    let sete = tirar_do_monte(&mut e, carta(Naipe::Paus, Valor::Sete));
    let tres = tirar_do_monte(&mut e, carta(Naipe::Copas, Valor::Tres));
    let resto: Vec<Carta> = e.baralho.cartas.drain(..).collect();
    e.maos[2] = resto;
    e.baralho.cartas.push(sete);
    e.baralho.cartas.push(tres);
    let r = e.comprar_carta(0);
    assert_eq!(r, Ok(ResultadoCompra::Comprou(carta(Naipe::Copas, Valor::Tres))));
    assert!(e.comprou_nesta_rodada);
    assert_eq!(e.tres_vermelhos_time_a, vec![carta(Naipe::Copas, Valor::Tres)]);
    assert_eq!(e.maos[0], vec![carta(Naipe::Paus, Valor::Sete)]);
    assert_eq!(e.baralho.restantes(), 0);
    assert_eq!(total_em_circulacao(&e), 108);
}

#[test]
fn comprar_duas_vezes_e_recusado() {
    let mut e = EstadoJogo::new();
    assert!(e.comprar_carta(0).is_ok());
    assert_eq!(e.comprar_carta(0), Err(Recusa::JaComprou));
}

#[test]
fn abertura_rejeitada_com_poucos_pontos() {
    let mut e = EstadoJogo::new();
    para_mao(
        &mut e,
        0,
        &[
            carta(Naipe::Paus, Valor::Quatro),
            carta(Naipe::Paus, Valor::Cinco),
            carta(Naipe::Paus, Valor::Seis),
            carta(Naipe::Ouros, Valor::Nove),
        ],
    );
    let antes = e.clone();
    let r = e.descer(
        0,
        vec![vec![
            carta(Naipe::Paus, Valor::Quatro),
            carta(Naipe::Paus, Valor::Cinco),
            carta(Naipe::Paus, Valor::Seis),
        ]],
    );
    assert_eq!(r, Err(Recusa::PontosInsuficientes));
    assert_eq!(e, antes);
}

#[test]
fn abertura_aceita_com_80_pontos() {
    let mut e = EstadoJogo::new();
    let corrida = corrida_paus_ate_valete();
    para_mao(&mut e, 0, &corrida);
    para_mao(&mut e, 0, &[carta(Naipe::Ouros, Valor::Nove)]);
    let r = e.descer(0, vec![corrida.clone()]);
    assert_eq!(r, Ok(()));
    assert_eq!(e.jogos_time_a.len(), 1);
    assert_eq!(e.jogos_time_a[0].id, 0);
    assert_eq!(e.jogos_time_a[0].cartas, corrida);
    assert_eq!(e.proximo_id_jogo, 1);
    assert_eq!(e.maos[0], vec![carta(Naipe::Ouros, Valor::Nove)]);
    assert!(!e.partida_encerrada);
    assert_eq!(total_em_circulacao(&e), 108);
}

#[test]
fn descida_que_esvazia_a_mao_sem_canastra_limpa_e_rejeitada() {
    let mut e = EstadoJogo::new();
    // Jogo valido de 90 pontos, mas sujo (tem Joker): nao autoriza a batida.
    let corrida_suja = vec![
        carta(Naipe::Paus, Valor::Quatro),
        carta(Naipe::Paus, Valor::Cinco),
        carta(Naipe::Paus, Valor::Seis),
        carta(Naipe::Paus, Valor::Sete),
        carta(Naipe::Paus, Valor::Oito),
        carta(Naipe::Paus, Valor::Nove),
        carta(Naipe::Paus, Valor::Dez),
        joker(),
    ];
    para_mao(&mut e, 0, &corrida_suja);
    let antes = e.clone();
    let r = e.descer(0, vec![corrida_suja]);
    assert_eq!(r, Err(Recusa::SemCanastraReal));
    assert_eq!(e, antes);
}

#[test]
fn descida_fora_de_turno_e_rejeitada() {
    let mut e = EstadoJogo::new();
    let antes = e.clone();
    let r = e.descer(1, vec![corrida_paus_ate_valete()]);
    assert_eq!(r, Err(Recusa::ForaDeTurno));
    assert_eq!(e, antes);
}

#[test]
fn descida_com_carta_que_nao_tem_e_rejeitada() {
    let mut e = EstadoJogo::new();
    para_mao(
        &mut e,
        0,
        &[carta(Naipe::Paus, Valor::Quatro), carta(Naipe::Paus, Valor::Cinco)],
    );
    let antes = e.clone();
    let r = e.descer(
        0,
        vec![vec![
            carta(Naipe::Paus, Valor::Quatro),
            carta(Naipe::Paus, Valor::Cinco),
            carta(Naipe::Paus, Valor::Seis),
        ]],
    );
    assert_eq!(r, Err(Recusa::CartaNaoPossui));
    assert_eq!(e, antes);
}

#[test]
fn lixo_travado_por_tres_preto_rejeita_a_compra() {
    let mut e = EstadoJogo::new();
    para_lixo(&mut e, &[carta(Naipe::Espadas, Valor::Tres)]);
    para_mao(
        &mut e,
        0,
        &[carta(Naipe::Ouros, Valor::Quatro), carta(Naipe::Ouros, Valor::Cinco)],
    );
    let antes = e.clone();
    let r = e.tentar_comprar_lixo(
        0,
        vec![vec![
            carta(Naipe::Espadas, Valor::Tres),
            carta(Naipe::Ouros, Valor::Quatro),
            carta(Naipe::Ouros, Valor::Cinco),
        ]],
        vec![],
    );
    assert_eq!(r, Err(Recusa::LixoTravado));
    assert_eq!(e, antes);
}

#[test]
fn comprar_lixo_exige_usar_o_topo() {
    let mut e = EstadoJogo::new();
    para_lixo(&mut e, &[carta(Naipe::Copas, Valor::Sete)]);
    para_mao(
        &mut e,
        0,
        &[
            carta(Naipe::Ouros, Valor::Quatro),
            carta(Naipe::Ouros, Valor::Cinco),
            carta(Naipe::Ouros, Valor::Seis),
        ],
    );
    let antes = e.clone();
    let r = e.tentar_comprar_lixo(
        0,
        vec![vec![
            carta(Naipe::Ouros, Valor::Quatro),
            carta(Naipe::Ouros, Valor::Cinco),
            carta(Naipe::Ouros, Valor::Seis),
        ]],
        vec![],
    );
    assert_eq!(r, Err(Recusa::TopoNaoUsado));
    assert_eq!(e, antes);
}

#[test]
fn esgotamento_do_monte_apos_ultima_volta() {
    let mut e = EstadoJogo::new();
    // Mao do jogador 0: corrida de Ouros do 4 ao Valete sem o 7 (que esta
    // no lixo), mais duas cartas de Copas.
    para_mao(
        &mut e,
        0,
        &[
            carta(Naipe::Ouros, Valor::Quatro),
            carta(Naipe::Ouros, Valor::Cinco),
            carta(Naipe::Ouros, Valor::Seis),
            carta(Naipe::Ouros, Valor::Oito),
            carta(Naipe::Ouros, Valor::Nove),
            carta(Naipe::Ouros, Valor::Dez),
            carta(Naipe::Ouros, Valor::Valete),
            carta(Naipe::Copas, Valor::Dois),
            carta(Naipe::Copas, Valor::Quatro),
        ],
    );
    para_lixo(&mut e, &[carta(Naipe::Ouros, Valor::Sete)]);
    // O monte esvazia: o que restava vai para a mao do jogador 2.
    let resto: Vec<Carta> = e.baralho.cartas.drain(..).collect();
    for c in resto {
        e.maos[2].push(c);
    }
    // A compra nao encerra a rodada: e o aviso de ultima volta.
    let r = e.comprar_carta(0);
    assert_eq!(r, Ok(ResultadoCompra::UltimaChance));
    assert!(!e.partida_encerrada);
    assert!(e.baralho_acabou_nesta_rodada);
    // O jogador compra o lixo usando o 7 na corrida (80 pontos de abertura).
    let r = e.tentar_comprar_lixo(
        0,
        vec![vec![
            carta(Naipe::Ouros, Valor::Quatro),
            carta(Naipe::Ouros, Valor::Cinco),
            carta(Naipe::Ouros, Valor::Seis),
            carta(Naipe::Ouros, Valor::Sete),
            carta(Naipe::Ouros, Valor::Oito),
            carta(Naipe::Ouros, Valor::Nove),
            carta(Naipe::Ouros, Valor::Dez),
            carta(Naipe::Ouros, Valor::Valete),
        ]],
        vec![],
    );
    assert_eq!(r, Ok(()));
    // O descarte seguinte encerra por esgotamento, sem penalidade de mao.
    let r = e.descartar_e_passar_turno(0, carta(Naipe::Copas, Valor::Quatro));
    assert_eq!(r, Ok(()));
    assert!(e.partida_encerrada);
    // Mesa do time A: 8 cartas a 10 pontos + 300 de canastra limpa.
    assert_eq!(e.pontuacao_a, 380);
    // Time B nao e penalizado pelas cartas que o jogador 2 segurava.
    assert_eq!(e.pontuacao_b, 0);
    assert_eq!(total_em_circulacao(&e), 108);
}

#[test]
fn batida_no_descarte_com_canastra_limpa() {
    let mut e = EstadoJogo::new();
    // Canastra limpa de Paus na mesa do time A (4 ao 10: 7 cartas).
    para_mesa_a(
        &mut e,
        &[
            carta(Naipe::Paus, Valor::Quatro),
            carta(Naipe::Paus, Valor::Cinco),
            carta(Naipe::Paus, Valor::Seis),
            carta(Naipe::Paus, Valor::Sete),
            carta(Naipe::Paus, Valor::Oito),
            carta(Naipe::Paus, Valor::Nove),
            carta(Naipe::Paus, Valor::Dez),
        ],
    );
    para_mao(&mut e, 0, &[carta(Naipe::Copas, Valor::Quatro)]);
    para_mao(&mut e, 1, &[carta(Naipe::Copas, Valor::Cinco)]);
    e.comprou_nesta_rodada = true;
    let r = e.descartar_e_passar_turno(0, carta(Naipe::Copas, Valor::Quatro));
    assert_eq!(r, Ok(()));
    assert!(e.partida_encerrada);
    assert!(e.maos[0].is_empty());
    // Time A: 100 da batida + 70 das cartas + 300 da canastra limpa.
    assert_eq!(e.pontuacao_a, 470);
    // Time B paga as cartas que restaram na mao do jogador 1.
    assert_eq!(e.pontuacao_b, -10);
    assert_eq!(total_em_circulacao(&e), 108);
}

#[test]
fn batida_sem_canastra_e_rejeitada_no_descarte() {
    let mut e = EstadoJogo::new();
    para_mao(&mut e, 0, &[carta(Naipe::Copas, Valor::Quatro)]);
    e.comprou_nesta_rodada = true;
    let antes = e.clone();
    let r = e.descartar_e_passar_turno(0, carta(Naipe::Copas, Valor::Quatro));
    assert_eq!(r, Err(Recusa::SemCanastraReal));
    assert_eq!(e, antes);
}

#[test]
fn descarte_sem_comprar_e_rejeitado() {
    let mut e = EstadoJogo::new();
    para_mao(&mut e, 0, &[carta(Naipe::Copas, Valor::Quatro)]);
    let antes = e.clone();
    let r = e.descartar_e_passar_turno(0, carta(Naipe::Copas, Valor::Quatro));
    assert_eq!(r, Err(Recusa::PrecisaComprar));
    assert_eq!(e, antes);
}

#[test]
fn descarte_passa_o_turno_e_zera_flags() {
    let mut e = EstadoJogo::new();
    para_mao(
        &mut e,
        0,
        &[carta(Naipe::Copas, Valor::Quatro), carta(Naipe::Copas, Valor::Nove)],
    );
    e.comprou_nesta_rodada = true;
    let r = e.descartar_e_passar_turno(0, carta(Naipe::Copas, Valor::Nove));
    assert_eq!(r, Ok(()));
    assert_eq!(e.turno_atual, 1);
    assert!(!e.comprou_nesta_rodada);
    assert!(!e.pegou_lixo_nesta_rodada);
    assert_eq!(e.lixo.last(), Some(&carta(Naipe::Copas, Valor::Nove)));
    assert_eq!(e.maos[0], vec![carta(Naipe::Copas, Valor::Quatro)]);
}

#[test]
fn ajuntar_estende_um_jogo_da_mesa() {
    let mut e = EstadoJogo::new();
    let id = para_mesa_a(
        &mut e,
        &[
            carta(Naipe::Paus, Valor::Quatro),
            carta(Naipe::Paus, Valor::Cinco),
            carta(Naipe::Paus, Valor::Seis),
        ],
    );
    para_mao(
        &mut e,
        0,
        &[carta(Naipe::Paus, Valor::Sete), carta(Naipe::Copas, Valor::Nove)],
    );
    let r = e.ajuntar(0, id, vec![carta(Naipe::Paus, Valor::Sete)]);
    assert_eq!(r, Ok(()));
    assert_eq!(e.jogos_time_a[0].cartas.len(), 4);
    assert_eq!(e.maos[0], vec![carta(Naipe::Copas, Valor::Nove)]);
    assert_eq!(total_em_circulacao(&e), 108);
}

#[test]
fn ajuntar_em_jogo_inexistente_e_rejeitado() {
    let mut e = EstadoJogo::new();
    para_mao(&mut e, 0, &[carta(Naipe::Paus, Valor::Sete)]);
    let antes = e.clone();
    let r = e.ajuntar(0, 9, vec![carta(Naipe::Paus, Valor::Sete)]);
    assert_eq!(r, Err(Recusa::JogoNaoEncontrado));
    assert_eq!(e, antes);
}

#[test]
fn ajuntar_que_quebra_o_jogo_e_rejeitado() {
    let mut e = EstadoJogo::new();
    let id = para_mesa_a(
        &mut e,
        &[
            carta(Naipe::Paus, Valor::Quatro),
            carta(Naipe::Paus, Valor::Cinco),
            carta(Naipe::Paus, Valor::Seis),
        ],
    );
    para_mao(
        &mut e,
        0,
        &[carta(Naipe::Paus, Valor::Nove), carta(Naipe::Copas, Valor::Oito)],
    );
    let antes = e.clone();
    let r = e.ajuntar(0, id, vec![carta(Naipe::Paus, Valor::Nove)]);
    assert_eq!(r, Err(Recusa::AjunteInvalido));
    assert_eq!(e, antes);
}

#[test]
fn conferir_real_exige_canastra_limpa() {
    let mut e = EstadoJogo::new();
    // Canastra suja: 6 naturais e um 2 (coringa) completando as 7 cartas.
    para_mesa_a(
        &mut e,
        &[
            carta(Naipe::Paus, Valor::Quatro),
            carta(Naipe::Paus, Valor::Cinco),
            carta(Naipe::Paus, Valor::Seis),
            carta(Naipe::Paus, Valor::Sete),
            carta(Naipe::Paus, Valor::Oito),
            carta(Naipe::Paus, Valor::Nove),
            carta(Naipe::Copas, Valor::Dois),
        ],
    );
    assert!(!e.conferir_real(0));
    assert!(!e.conferir_real(2));
    para_mesa_a(
        &mut e,
        &[
            carta(Naipe::Espadas, Valor::Quatro),
            carta(Naipe::Espadas, Valor::Cinco),
            carta(Naipe::Espadas, Valor::Seis),
            carta(Naipe::Espadas, Valor::Sete),
            carta(Naipe::Espadas, Valor::Oito),
            carta(Naipe::Espadas, Valor::Nove),
            carta(Naipe::Espadas, Valor::Dez),
        ],
    );
    assert!(e.conferir_real(0));
    assert!(!e.conferir_real(1));
}

#[test]
fn obter_canastras_devolve_os_jogos_de_sete() {
    let mut e = EstadoJogo::new();
    para_mesa_a(
        &mut e,
        &[
            carta(Naipe::Paus, Valor::Quatro),
            carta(Naipe::Paus, Valor::Cinco),
            carta(Naipe::Paus, Valor::Seis),
        ],
    );
    para_mesa_a(
        &mut e,
        &[
            carta(Naipe::Espadas, Valor::Quatro),
            carta(Naipe::Espadas, Valor::Cinco),
            carta(Naipe::Espadas, Valor::Seis),
            carta(Naipe::Espadas, Valor::Sete),
            carta(Naipe::Espadas, Valor::Oito),
            carta(Naipe::Espadas, Valor::Nove),
            carta(Naipe::Espadas, Valor::Dez),
        ],
    );
    let canastras = e.obter_canastras(0);
    assert_eq!(canastras.len(), 1);
    assert_eq!(canastras[0].len(), 7);
    assert_eq!(e.obter_canastras(1).len(), 0);
}

#[test]
fn contar_pontos_soma_mesa_e_tres_vermelhos() {
    let mut e = EstadoJogo::new();
    para_mesa_a(
        &mut e,
        &[
            carta(Naipe::Paus, Valor::Quatro),
            carta(Naipe::Paus, Valor::Cinco),
            carta(Naipe::Paus, Valor::Seis),
        ],
    );
    let tres = tirar_do_monte(&mut e, carta(Naipe::Copas, Valor::Tres));
    e.tres_vermelhos_time_a.push(tres);
    e.contar_pontos();
    // Sem canastra limpa o 3 vermelho vale -100; a mesa soma 30.
    assert_eq!(e.pontuacao_a, -70);
    assert_eq!(e.pontuacao_b, 0);
}

#[test]
fn realizar_acao_respeita_turno_e_fim_de_partida() {
    let mut e = EstadoJogo::new();
    let antes = e.clone();
    let r = e.realizar_acao(2, AcaoJogador::ComprarBaralho);
    assert_eq!(r, Err("Nao e seu turno.".to_string()));
    assert_eq!(e, antes);
    e.partida_encerrada = true;
    let antes = e.clone();
    let r = e.realizar_acao(0, AcaoJogador::ComprarBaralho);
    assert_eq!(r, Err("A partida ja encerrou.".to_string()));
    assert_eq!(e, antes);
}

#[test]
fn realizar_acao_compra_e_mensagem() {
    let mut e = EstadoJogo::new();
    let r = e.realizar_acao(0, AcaoJogador::ComprarBaralho);
    assert_eq!(r, Ok("Voce comprou do baralho.".to_string()));
    assert!(e.comprou_nesta_rodada);
    let r = e.realizar_acao(0, AcaoJogador::Mensagem { texto: "oi".to_string() });
    assert_eq!(r, Ok("Mensagem enviada".to_string()));
}

#[test]
fn realizar_acao_baixa_jogos() {
    let mut e = EstadoJogo::new();
    let corrida = corrida_paus_ate_valete();
    para_mao(&mut e, 0, &corrida);
    para_mao(&mut e, 0, &[carta(Naipe::Ouros, Valor::Nove)]);
    let r = e.realizar_acao(0, AcaoJogador::BaixarJogos { jogos: vec![corrida] });
    assert_eq!(r, Ok("Jogos baixados com sucesso.".to_string()));
    assert_eq!(e.jogos_time_a.len(), 1);
    let r = e.realizar_acao(
        0,
        AcaoJogador::Ajuntar { indice_jogo: 0, cartas: vec![carta(Naipe::Ouros, Valor::Nove)] },
    );
    assert_eq!(r, Err("A nova formacao do jogo e invalida.".to_string()));
}

#[test]
fn batida_direta_na_descida_com_canastra_nova() {
    let mut e = EstadoJogo::new();
    // A mao inteira vira uma canastra limpa de 8 cartas: batida direta.
    let corrida = corrida_paus_ate_valete();
    para_mao(&mut e, 3, &corrida);
    para_mao(&mut e, 0, &[carta(Naipe::Copas, Valor::Nove)]);
    e.turno_atual = 3;
    let r = e.descer(3, vec![corrida]);
    assert_eq!(r, Ok(()));
    assert!(e.partida_encerrada);
    assert!(e.maos[3].is_empty());
    // Time B: 100 da batida + 80 das cartas + 300 da canastra limpa.
    assert_eq!(e.pontuacao_b, 480);
    // Time A paga a carta que restou na mao do jogador 0.
    assert_eq!(e.pontuacao_a, -10);
}

#[test]
fn descartar_lixo_move_a_carta() {
    let mut e = EstadoJogo::new();
    para_mao(&mut e, 1, &[carta(Naipe::Copas, Valor::Nove)]);
    e.descartar_lixo(1, &carta(Naipe::Copas, Valor::Nove));
    assert!(e.maos[1].is_empty());
    assert_eq!(e.lixo, vec![carta(Naipe::Copas, Valor::Nove)]);
    // Carta que nao esta na mao: nada muda.
    let antes = e.clone();
    e.descartar_lixo(1, &carta(Naipe::Copas, Valor::Oito));
    assert_eq!(e, antes);
}

#[test]
fn visao_esconde_as_maos_alheias() {
    let mut e = EstadoJogo::new();
    para_mao(&mut e, 0, &[carta(Naipe::Copas, Valor::Nove)]);
    para_mao(
        &mut e,
        1,
        &[carta(Naipe::Copas, Valor::Oito), carta(Naipe::Copas, Valor::Sete)],
    );
    para_lixo(&mut e, &[carta(Naipe::Ouros, Valor::Seis)]);
    let v = e.gerar_visao_para(0);
    assert_eq!(v.meu_id, 0);
    assert!(v.posso_jogar);
    assert_eq!(v.minha_mao, vec![carta(Naipe::Copas, Valor::Nove)]);
    assert_eq!(v.qtd_cartas_jogadores, vec![1, 2, 0, 0]);
    assert_eq!(v.lixo, Some(carta(Naipe::Ouros, Valor::Seis)));
    assert_eq!(v.qtd_lixo, 1);
    assert_eq!(v.cartas_no_monte, e.baralho.restantes());
    let v1 = e.gerar_visao_para(1);
    assert!(!v1.posso_jogar);
    assert_eq!(v1.minha_mao.len(), 2);
}

#[test]
fn comprar_lixo_carrega_a_pilha_inteira() {
    let mut e = EstadoJogo::new();
    para_lixo(
        &mut e,
        &[carta(Naipe::Copas, Valor::Rei), carta(Naipe::Ouros, Valor::Sete)],
    );
    para_mao(
        &mut e,
        0,
        &[
            carta(Naipe::Ouros, Valor::Quatro),
            carta(Naipe::Ouros, Valor::Cinco),
            carta(Naipe::Ouros, Valor::Seis),
            carta(Naipe::Ouros, Valor::Oito),
            carta(Naipe::Ouros, Valor::Nove),
            carta(Naipe::Ouros, Valor::Dez),
            carta(Naipe::Ouros, Valor::Valete),
        ],
    );
    let r = e.tentar_comprar_lixo(
        0,
        vec![vec![
            carta(Naipe::Ouros, Valor::Quatro),
            carta(Naipe::Ouros, Valor::Cinco),
            carta(Naipe::Ouros, Valor::Seis),
            carta(Naipe::Ouros, Valor::Sete),
            carta(Naipe::Ouros, Valor::Oito),
            carta(Naipe::Ouros, Valor::Nove),
            carta(Naipe::Ouros, Valor::Dez),
            carta(Naipe::Ouros, Valor::Valete),
        ]],
        vec![],
    );
    assert_eq!(r, Ok(()));
    assert!(e.lixo.is_empty());
    assert!(e.pegou_lixo_nesta_rodada);
    assert!(e.comprou_nesta_rodada);
    // O Rei do fundo do lixo ficou na mao.
    assert_eq!(e.maos[0], vec![carta(Naipe::Copas, Valor::Rei)]);
    assert_eq!(e.jogos_time_a.len(), 1);
    assert_eq!(e.jogos_time_a[0].cartas.len(), 8);
    assert_eq!(total_em_circulacao(&e), 108);
}

#[test]
fn comprar_lixo_pode_esvaziar_a_mao_sem_canastra() {
    // Diferente da descida e do descarte, a compra do lixo nao tem guarda
    // de batida: consumir mao e lixo inteiros num jogo novo e aceito.
    let mut e = EstadoJogo::new();
    para_mesa_a(
        &mut e,
        &[
            carta(Naipe::Paus, Valor::Quatro),
            carta(Naipe::Paus, Valor::Cinco),
            carta(Naipe::Paus, Valor::Seis),
        ],
    );
    para_lixo(&mut e, &[carta(Naipe::Espadas, Valor::Oito)]);
    para_mao(
        &mut e,
        0,
        &[carta(Naipe::Espadas, Valor::Sete), carta(Naipe::Espadas, Valor::Nove)],
    );
    let r = e.tentar_comprar_lixo(
        0,
        vec![vec![
            carta(Naipe::Espadas, Valor::Sete),
            carta(Naipe::Espadas, Valor::Oito),
            carta(Naipe::Espadas, Valor::Nove),
        ]],
        vec![],
    );
    assert_eq!(r, Ok(()));
    assert!(e.maos[0].is_empty());
    assert!(!e.partida_encerrada);
    assert_eq!(total_em_circulacao(&e), 108);
}

#[test]
fn comprar_lixo_com_ajunte_usando_o_topo() {
    let mut e = EstadoJogo::new();
    let id = para_mesa_a(
        &mut e,
        &[
            carta(Naipe::Paus, Valor::Quatro),
            carta(Naipe::Paus, Valor::Cinco),
            carta(Naipe::Paus, Valor::Seis),
        ],
    );
    para_lixo(&mut e, &[carta(Naipe::Paus, Valor::Sete)]);
    para_mao(&mut e, 0, &[carta(Naipe::Copas, Valor::Nove)]);
    let r = e.tentar_comprar_lixo(0, vec![], vec![(id, vec![carta(Naipe::Paus, Valor::Sete)])]);
    assert_eq!(r, Ok(()));
    assert_eq!(e.jogos_time_a[0].cartas.len(), 4);
    assert!(e.lixo.is_empty());
    assert_eq!(e.maos[0], vec![carta(Naipe::Copas, Valor::Nove)]);
    assert_eq!(total_em_circulacao(&e), 108);
}
