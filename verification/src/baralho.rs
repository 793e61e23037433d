//! Cartas e baralho: identidade das cartas, predicados das regras e o monte
//! de compra com 108 cartas (dois baralhos completos mais 4 jokers).

use rand::seq::SliceRandom;
use vstd::prelude::*;

verus! {

/// Naipe de uma carta; `Nenhum` e reservado aos Jokers.
#[derive(Debug, Clone, Copy, PartialEq, Eq, Structural, Hash)]
pub enum Naipe {
    Copas,
    Espadas,
    Ouros,
    Paus,
    Nenhum,
}

/// Valor de uma carta. No Buraco o 2 funciona como coringa.
#[derive(Debug, Clone, Copy, PartialEq, Eq, Structural, Hash)]
pub enum Valor {
    Tres,
    Quatro,
    Cinco,
    Seis,
    Sete,
    Oito,
    Nove,
    Dez,
    Valete,
    Dama,
    Rei,
    As,
    Dois,
    Joker,
}

/// Cor do verso de uma carta, usada apenas na apresentacao.
#[derive(Debug, Clone, Copy, PartialEq, Eq, Structural)]
pub enum Verso {
    Red,
    Blue,
}

/// Uma carta: valor + naipe, com semantica de valor (duas cartas sao iguais
/// exatamente quando valor e naipe coincidem).
#[derive(Debug, Clone, Copy, PartialEq, Eq, Structural, Hash)]
pub struct Carta {
    pub naipe: Naipe,
    pub valor: Valor,
}

/// Indice de um valor na contagem em que o As vale 1 (As=1 ... Rei=13).
pub open spec fn indice_valor(v: Valor) -> int {
    match v {
        Valor::As => 1,
        Valor::Dois => 2,
        Valor::Tres => 3,
        Valor::Quatro => 4,
        Valor::Cinco => 5,
        Valor::Seis => 6,
        Valor::Sete => 7,
        Valor::Oito => 8,
        Valor::Nove => 9,
        Valor::Dez => 10,
        Valor::Valete => 11,
        Valor::Dama => 12,
        Valor::Rei => 13,
        Valor::Joker => 0,
    }
}

/// Indice de uma carta dentro de uma sequencia: As vale 14 (carta mais alta);
/// 2, 3 e Joker ficam fora da sequenciacao natural (indice 0).
pub open spec fn indice_corrida(c: Carta) -> int {
    match c.valor {
        Valor::Quatro => 4,
        Valor::Cinco => 5,
        Valor::Seis => 6,
        Valor::Sete => 7,
        Valor::Oito => 8,
        Valor::Nove => 9,
        Valor::Dez => 10,
        Valor::Valete => 11,
        Valor::Dama => 12,
        Valor::Rei => 13,
        Valor::As => 14,
        _ => 0,
    }
}

/// Pontos da carta na contagem final: Joker vale 20, as demais valem 10
/// (tabela deliberadamente simplificada deste conjunto de regras).
pub open spec fn pontos_carta(c: Carta) -> int {
    if c.valor == Valor::Joker {
        20
    } else {
        10
    }
}

/// A carta funciona como coringa (2 ou Joker).
pub open spec fn coringa(c: Carta) -> bool {
    c.valor == Valor::Dois || c.valor == Valor::Joker
}

/// A carta e um 3 vermelho (Copas ou Ouros): vai para a reserva do time.
pub open spec fn tres_vermelho(c: Carta) -> bool {
    c.valor == Valor::Tres && (c.naipe == Naipe::Copas || c.naipe == Naipe::Ouros)
}

/// A carta e um 3 preto (Espadas ou Paus).
pub open spec fn tres_preto(c: Carta) -> bool {
    c.valor == Valor::Tres && (c.naipe == Naipe::Espadas || c.naipe == Naipe::Paus)
}

/// A carta trava o lixo quando esta no topo (3 preto, 2 ou Joker).
pub open spec fn trava_lixo(c: Carta) -> bool {
    tres_preto(c) || c.valor == Valor::Dois || c.valor == Valor::Joker
}

impl Valor {
    /// Indice do valor com As = 1 (convencao de exibicao).
    pub fn indice_sequencia(&self) -> (r: u8)
        ensures
            r as int == indice_valor(*self),
    {
        match self {
            Valor::As => 1,
            Valor::Dois => 2,
            Valor::Tres => 3,
            Valor::Quatro => 4,
            Valor::Cinco => 5,
            Valor::Seis => 6,
            Valor::Sete => 7,
            Valor::Oito => 8,
            Valor::Nove => 9,
            Valor::Dez => 10,
            Valor::Valete => 11,
            Valor::Dama => 12,
            Valor::Rei => 13,
            Valor::Joker => 0,
        }
    }
}

impl Carta {
    /// Pontos da carta na contagem final.
    pub fn pontos(&self) -> (r: i32)
        ensures
            r as int == pontos_carta(*self),
    {
        match self.valor {
            Valor::Joker => 20,
            _ => 10,
        }
    }

    /// A carta funciona como coringa (2 ou Joker)?
    pub fn eh_coringa(&self) -> (r: bool)
        ensures
            r == coringa(*self),
    {
        matches!(self.valor, Valor::Dois | Valor::Joker)
    }

    /// A carta e um 3 vermelho?
    pub fn eh_tres_vermelho(&self) -> (r: bool)
        ensures
            r == tres_vermelho(*self),
    {
        self.valor == Valor::Tres && (self.naipe == Naipe::Copas || self.naipe == Naipe::Ouros)
    }

    /// A carta e um 3 preto?
    pub fn eh_tres_preto(&self) -> (r: bool)
        ensures
            r == tres_preto(*self),
    {
        self.valor == Valor::Tres && (self.naipe == Naipe::Espadas || self.naipe == Naipe::Paus)
    }

    /// A carta trava o lixo quando esta no topo?
    pub fn trava_o_lixo(&self) -> (r: bool)
        ensures
            r == trava_lixo(*self),
    {
        self.eh_tres_preto() || self.valor == Valor::Dois || self.valor == Valor::Joker
    }

    /// Indice da carta dentro de uma sequencia (As alto = 14; especiais = 0).
    pub fn valor_numerico_sequencia(&self) -> (r: u8)
        ensures
            r as int == indice_corrida(*self),
    {
        match self.valor {
            Valor::Quatro => 4,
            Valor::Cinco => 5,
            Valor::Seis => 6,
            Valor::Sete => 7,
            Valor::Oito => 8,
            Valor::Nove => 9,
            Valor::Dez => 10,
            Valor::Valete => 11,
            Valor::Dama => 12,
            Valor::Rei => 13,
            Valor::As => 14,
            _ => 0,
        }
    }

    /// A carta e o Joker classico?
    pub fn eh_joker(&self) -> (r: bool)
        ensures
            r == (self.valor == Valor::Joker),
    {
        matches!(self.valor, Valor::Joker)
    }
}

/// Naipe na posicao `n` da ordem de montagem do baralho.
pub open spec fn naipe_ordem(n: int) -> Naipe {
    if n == 0 {
        Naipe::Copas
    } else if n == 1 {
        Naipe::Ouros
    } else if n == 2 {
        Naipe::Espadas
    } else {
        Naipe::Paus
    }
}

/// Valor na posicao `v` da ordem de montagem do baralho (As, 2, ..., Rei).
pub open spec fn valor_ordem(v: int) -> Valor {
    if v == 0 {
        Valor::As
    } else if v == 1 {
        Valor::Dois
    } else if v == 2 {
        Valor::Tres
    } else if v == 3 {
        Valor::Quatro
    } else if v == 4 {
        Valor::Cinco
    } else if v == 5 {
        Valor::Seis
    } else if v == 6 {
        Valor::Sete
    } else if v == 7 {
        Valor::Oito
    } else if v == 8 {
        Valor::Nove
    } else if v == 9 {
        Valor::Dez
    } else if v == 10 {
        Valor::Valete
    } else if v == 11 {
        Valor::Dama
    } else {
        Valor::Rei
    }
}

/// Carta na posicao `k` de meio baralho (52 cartas naturais + 2 Jokers).
pub open spec fn carta_posicao(k: int) -> Carta {
    if k < 13 {
        Carta { naipe: Naipe::Copas, valor: valor_ordem(k) }
    } else if k < 26 {
        Carta { naipe: Naipe::Ouros, valor: valor_ordem(k - 13) }
    } else if k < 39 {
        Carta { naipe: Naipe::Espadas, valor: valor_ordem(k - 26) }
    } else if k < 52 {
        Carta { naipe: Naipe::Paus, valor: valor_ordem(k - 39) }
    } else {
        Carta { naipe: Naipe::Nenhum, valor: Valor::Joker }
    }
}

/// O baralho inicial, sem embaralhar: dois blocos de 54 cartas.
pub open spec fn baralho_inicial() -> Seq<Carta> {
    Seq::new(108, |i: int| carta_posicao(if i < 54 { i } else { i - 54 }))
}

/// Copia um grupo de cartas, uma a uma (cartas tem semantica de valor).
pub(crate) fn copiar_cartas(v: &[Carta]) -> (r: Vec<Carta>)
    ensures
        r@ == v@,
{
    let n = v.len();
    let mut r: Vec<Carta> = Vec::new();
    let mut i: usize = 0;
    while i < n
        invariant
            n == v@.len(),
            i <= n,
            r@ =~= v@.take(i as int),
        decreases n - i,
    {
        r.push(v[i]);
        proof {
            assert(r@ =~= v@.take(i + 1));
        }
        i += 1;
    }
    proof {
        assert(v@.take(n as int) =~= v@);
    }
    r
}

/// O monte de compra: uma pilha ordenada de cartas, comprada pelo fim.
#[derive(Debug, Clone, PartialEq)]
pub struct Baralho {
    pub cartas: Vec<Carta>,
}

impl Baralho {
    /// Monta o baralho completo de Buraco, na ordem deterministica de
    /// `baralho_inicial()`: 108 cartas, ainda sem embaralhar.
    pub fn new() -> (r: Baralho)
        ensures
            r.cartas@ == baralho_inicial(),
            r.cartas@.len() == 108,
    {
        let mut cartas: Vec<Carta> = Vec::new();
        let mut d: usize = 0;
        while d < 2
            invariant
                d <= 2,
                cartas@.len() == 54 * d,
                cartas@ =~= baralho_inicial().take(54 * d as int),
            decreases 2 - d,
        {
            let mut n: usize = 0;
            while n < 4
                invariant
                    d < 2,
                    n <= 4,
                    cartas@.len() == 54 * d + 13 * n,
                    cartas@ =~= baralho_inicial().take(54 * d + 13 * n),
                decreases 4 - n,
            {
                let naipe = match n {
                    0 => Naipe::Copas,
                    1 => Naipe::Ouros,
                    2 => Naipe::Espadas,
                    _ => Naipe::Paus,
                };
                let mut v: usize = 0;
                while v < 13
                    invariant
                        d < 2,
                        n < 4,
                        v <= 13,
                        naipe == naipe_ordem(n as int),
                        cartas@.len() == 54 * d + 13 * n + v,
                        cartas@ =~= baralho_inicial().take(54 * d + 13 * n + v),
                    decreases 13 - v,
                {
                    let valor = match v {
                        0 => Valor::As,
                        1 => Valor::Dois,
                        2 => Valor::Tres,
                        3 => Valor::Quatro,
                        4 => Valor::Cinco,
                        5 => Valor::Seis,
                        6 => Valor::Sete,
                        7 => Valor::Oito,
                        8 => Valor::Nove,
                        9 => Valor::Dez,
                        10 => Valor::Valete,
                        11 => Valor::Dama,
                        _ => Valor::Rei,
                    };
                    cartas.push(Carta { naipe, valor });
                    v += 1;
                }
                n += 1;
            }
            cartas.push(Carta { naipe: Naipe::Nenhum, valor: Valor::Joker });
            cartas.push(Carta { naipe: Naipe::Nenhum, valor: Valor::Joker });
            d += 1;
        }
        assert(cartas@ =~= baralho_inicial());
        Baralho { cartas }
    }

    /// Embaralha as cartas no lugar.
    ///
    /// Apoia-se em `rand::seq::SliceRandom::shuffle`, que permuta a fatia no
    /// proprio lugar (Fisher-Yates): as cartas presentes sao exatamente as
    /// mesmas, apenas em outra ordem.
    #[verifier::external_body]
    pub fn shuffle(&mut self)
        ensures
            final(self).cartas@.to_multiset() == old(self).cartas@.to_multiset(),
            final(self).cartas@.len() == old(self).cartas@.len(),
    {
        let mut rng = rand::rng();
        self.cartas.shuffle(&mut rng);
    }

    /// Tira a carta do topo do baralho (a ultima da pilha), se houver.
    pub fn comprar(&mut self) -> (r: Option<Carta>)
        ensures
            old(self).cartas@.len() == 0 ==> r is None && final(self).cartas@ == old(
                self,
            ).cartas@,
            old(self).cartas@.len() > 0 ==> r == Some(old(self).cartas@.last())
                && final(self).cartas@ == old(self).cartas@.drop_last(),
    {
        let r = self.cartas.pop();
        proof {
            if old(self).cartas@.len() > 0 {
                assert(final(self).cartas@ =~= old(self).cartas@.drop_last());
            }
        }
        r
    }

    /// Quantas cartas restam no monte.
    pub fn restantes(&self) -> (n: usize)
        ensures
            n == self.cartas@.len(),
    {
        self.cartas.len()
    }
}

} // verus!
