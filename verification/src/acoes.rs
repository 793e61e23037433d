//! Tipos de mensagem trocados com o motor: acoes do jogador, respostas do
//! servidor, a visao filtrada por jogador e os motivos de recusa.

use crate::baralho::{Carta, Verso};
use vstd::prelude::*;

verus! {

/// A intencao de um jogador, uma variante por acao do turno.
#[derive(Debug, Clone)]
pub enum AcaoJogador {
    /// Comprar uma carta do monte fechado.
    ComprarBaralho,
    /// Comprar o lixo inteiro, provando o uso da carta do topo em jogos
    /// novos ou em ajuntes a jogos existentes.
    ComprarLixo {
        novos_jogos: Vec<Vec<Carta>>,
        cartas_em_jogos_existentes: Vec<(u32, Vec<Carta>)>,
    },
    /// Baixar jogos da mao (corridas ou trinca de Ases).
    BaixarJogos { jogos: Vec<Vec<Carta>> },
    /// Adicionar cartas a um jogo que ja esta na mesa.
    Ajuntar { indice_jogo: u32, cartas: Vec<Carta> },
    /// Descartar uma carta para encerrar o turno.
    Descartar { carta: Carta },
    /// Mensagem livre de bate-papo; nao altera o estado.
    Mensagem { texto: String },
}

/// Um jogo baixado na mesa, sob um id estavel dentro da partida.
#[derive(Debug, Clone, PartialEq)]
pub struct DetalheJogo {
    pub id: u32,
    pub cartas: Vec<Carta>,
}

/// A "foto" do jogo filtrada para um observador: a propria mao completa,
/// apenas contagens das maos alheias, e o que e publico na mesa.
#[derive(Debug, Clone)]
pub struct VisaoJogador {
    pub meu_id: u32,
    pub minha_mao: Vec<Carta>,
    pub posso_jogar: bool,
    pub mesa_time_a: Vec<DetalheJogo>,
    pub mesa_time_b: Vec<DetalheJogo>,
    pub tres_vermelho_time_a: Vec<Carta>,
    pub tres_vermelho_time_b: Vec<Carta>,
    pub lixo: Option<Carta>,
    pub qtd_cartas_jogadores: Vec<usize>,
    pub pontuacao_a: i32,
    pub pontuacao_b: i32,
    pub turno_atual: u32,
    pub rodada: u32,
    pub cartas_no_monte: usize,
    pub qtd_monte: u32,
    pub qtd_lixo: u32,
    pub verso_topo: Option<Verso>,
}

/// O que o servidor manda de volta a um cliente.
#[derive(Debug, Clone)]
pub enum MsgServidor {
    BoasVindas { id_jogador: u32 },
    Estado(VisaoJogador),
    Notificacao(String),
    Erro(String),
    FimDeJogo { vencedor_time: u8, pontos_a: i32, pontos_b: i32, motivo: String },
}

/// O que um cliente manda ao servidor.
#[derive(Debug, Clone)]
pub enum MsgCliente {
    ComprarBaralho,
    ComprarLixo,
    BaixarJogos { jogos: Vec<Vec<Carta>> },
    Descartar { carta: Carta },
}

/// Motivo pelo qual uma acao foi recusada. Toda recusa deixa o estado
/// exatamente como estava.
#[derive(Debug, Clone, Copy, PartialEq, Eq, Structural)]
pub enum Recusa {
    /// A partida ja terminou.
    PartidaEncerrada,
    /// Nao e o turno do jogador.
    ForaDeTurno,
    /// Ja comprou do baralho neste turno.
    JaComprou,
    /// Ja pegou o lixo neste turno.
    JaPegouLixo,
    /// O lixo esta vazio.
    LixoVazio,
    /// O topo do lixo trava a pilha (3 preto, 2 ou Joker).
    LixoTravado,
    /// A carta do topo do lixo nao foi usada em jogo de 3+ cartas.
    TopoNaoUsado,
    /// Um dos jogos propostos nao e valido.
    JogoInvalido,
    /// Nenhum jogo foi enviado.
    NenhumJogo,
    /// O jogo alvo do ajunte nao existe ou nao e do time.
    JogoNaoEncontrado,
    /// O ajunte resultaria em um jogo invalido.
    AjunteInvalido,
    /// O jogador nao possui alguma das cartas indicadas.
    CartaNaoPossui,
    /// Pontos insuficientes para a primeira descida do time.
    PontosInsuficientes,
    /// Proibido bater no mesmo turno em que pegou o lixo.
    BatidaAposLixo,
    /// Para bater o time precisa de uma canastra limpa.
    SemCanastraReal,
    /// E preciso comprar do baralho ou pegar o lixo antes de descartar.
    PrecisaComprar,
    /// A carta do descarte nao esta na mao.
    CartaNaoEncontrada,
}

/// O texto de cada motivo de recusa.
pub open spec fn texto_recusa(m: Recusa) -> Seq<char> {
    match m {
        Recusa::PartidaEncerrada => "A partida ja encerrou."@,
        Recusa::ForaDeTurno => "Nao e seu turno."@,
        Recusa::JaComprou => "Voce ja comprou uma carta neste turno."@,
        Recusa::JaPegouLixo => "Voce ja pegou o lixo neste turno."@,
        Recusa::LixoVazio => "Lixo vazio."@,
        Recusa::LixoTravado => "O lixo esta travado (3 Preto, 2 ou Joker)."@,
        Recusa::TopoNaoUsado => "Voce deve usar a carta do topo em um jogo de pelo menos 3 cartas."@,
        Recusa::JogoInvalido => "Um dos jogos enviados e invalido."@,
        Recusa::NenhumJogo => "Nenhum jogo foi enviado."@,
        Recusa::JogoNaoEncontrado => "Jogo nao encontrado ou nao pertence ao seu time."@,
        Recusa::AjunteInvalido => "A nova formacao do jogo e invalida."@,
        Recusa::CartaNaoPossui => "Voce nao possui uma das cartas indicadas."@,
        Recusa::PontosInsuficientes => "Pontuacao insuficiente para abrir o jogo."@,
        Recusa::BatidaAposLixo => "Voce pegou o lixo, entao nao pode bater neste turno."@,
        Recusa::SemCanastraReal => "Para bater, seu time precisa de pelo menos uma Canastra Real."@,
        Recusa::PrecisaComprar => "Voce precisa comprar do baralho ou pegar o lixo antes de descartar."@,
        Recusa::CartaNaoEncontrada => "Carta nao encontrada."@,
    }
}

impl Recusa {
    /// A mensagem legivel do motivo.
    pub fn mensagem(&self) -> (r: String)
        ensures
            r@ == texto_recusa(*self),
    {
        match self {
            Recusa::PartidaEncerrada => "A partida ja encerrou.".to_owned(),
            Recusa::ForaDeTurno => "Nao e seu turno.".to_owned(),
            Recusa::JaComprou => "Voce ja comprou uma carta neste turno.".to_owned(),
            Recusa::JaPegouLixo => "Voce ja pegou o lixo neste turno.".to_owned(),
            Recusa::LixoVazio => "Lixo vazio.".to_owned(),
            Recusa::LixoTravado => "O lixo esta travado (3 Preto, 2 ou Joker).".to_owned(),
            Recusa::TopoNaoUsado => "Voce deve usar a carta do topo em um jogo de pelo menos 3 cartas.".to_owned(),
            Recusa::JogoInvalido => "Um dos jogos enviados e invalido.".to_owned(),
            Recusa::NenhumJogo => "Nenhum jogo foi enviado.".to_owned(),
            Recusa::JogoNaoEncontrado => "Jogo nao encontrado ou nao pertence ao seu time.".to_owned(),
            Recusa::AjunteInvalido => "A nova formacao do jogo e invalida.".to_owned(),
            Recusa::CartaNaoPossui => "Voce nao possui uma das cartas indicadas.".to_owned(),
            Recusa::PontosInsuficientes => "Pontuacao insuficiente para abrir o jogo.".to_owned(),
            Recusa::BatidaAposLixo => "Voce pegou o lixo, entao nao pode bater neste turno.".to_owned(),
            Recusa::SemCanastraReal => "Para bater, seu time precisa de pelo menos uma Canastra Real.".to_owned(),
            Recusa::PrecisaComprar => "Voce precisa comprar do baralho ou pegar o lixo antes de descartar.".to_owned(),
            Recusa::CartaNaoEncontrada => "Carta nao encontrada.".to_owned(),
        }
    }
}

/// O que uma compra do monte pode render quando a acao em si e aceita.
#[derive(Debug, Clone, Copy, PartialEq, Eq, Structural)]
pub enum ResultadoCompra {
    /// Uma carta veio do monte para a mao.
    Comprou(Carta),
    /// O monte acabou mas o lixo segue em jogo: aviso de ultima volta.
    UltimaChance,
    /// O monte acabou e o lixo nao pode ser pego: rodada encerrada.
    Esgotado,
}

} // verus!
