//! The boundary between the session and the device.
//!
//! Four operations, not two: report `0xAA` is Feature-only in the descriptor,
//! and only `0x55` has Input/Output. This module holds the encoding of the
//! hidraw feature ioctls and a scripted transport that stages what is hard to
//! stage with hardware: silence, truncation and the dongle vanishing.

use vstd::prelude::*;

use crate::min_int;

verus! {

/// Direction bits of a hidraw ioctl that both reads and writes.
pub const IOC_READ_WRITE: u32 = 3;

/// The ioctl type letter of hidraw, `'H'`.
pub const IOC_TYPE_HIDRAW: u32 = 0x48;

/// `_IOC(_IOC_READ|_IOC_WRITE, 'H', nr, len)`, the length cut to 14 bits.
pub open spec fn spec_ioc(nr: u32, len: usize) -> u64 {
    ((IOC_READ_WRITE << 30u32) | (((len as u32) & 0x3FFFu32) << 16u32) | (IOC_TYPE_HIDRAW << 8u32) | nr) as u64
}

/// The request number of a hidraw feature ioctl (`HIDIOCGFEATURE` is
/// `nr = 7`, `HIDIOCSFEATURE` is `nr = 6`) for a buffer of `len` bytes.
pub fn ioc(nr: u32, len: usize) -> (r: u64)
    ensures
        r == spec_ioc(nr, len),
{
    let bits: u32 = (IOC_READ_WRITE << 30u32) | (((len as u32) & 0x3FFF) << 16u32) | (IOC_TYPE_HIDRAW << 8u32) | nr;
    bits as u64
}

/// Why an operation of the scripted transport failed.
#[derive(Debug, Clone, Copy, PartialEq, Eq)]
pub enum FalhaFake {
    /// The dongle was removed (`NotConnected`).
    Sumiu,
    /// No answer is registered for that feature report (`InvalidData`).
    SemFeature,
}

/// The outcome of a read of the scripted transport.
#[derive(Debug, Clone, Copy, PartialEq, Eq)]
pub enum Leitura {
    /// This many bytes were copied into the buffer.
    Bytes(usize),
    /// The operation failed.
    Falha(FalhaFake),
    /// The headset is silent: a real read would never finish.
    Silencio,
}

/// The scripted transport.
pub struct FakeTransport {
    leituras: std::collections::VecDeque<Vec<u8>>,
    features: Vec<(u8, Vec<u8>)>,
    escrito: Vec<Vec<u8>>,
    some: bool,
    some_no_fim: bool,
}

/// The mathematical form of the scripted transport.
pub struct FakeView {
    /// The reports the next reads will return, in order.
    pub leituras: Seq<Seq<u8>>,
    /// Feature answers, newest first.
    pub features: Seq<(u8, Seq<u8>)>,
    /// Everything written, in order.
    pub escrito: Seq<Seq<u8>>,
    /// Every operation fails.
    pub some: bool,
    /// Reads fail once the queued reports are delivered.
    pub some_no_fim: bool,
}

/// The answer registered for a feature report: the newest one.
pub open spec fn feature_de(features: Seq<(u8, Seq<u8>)>, id: u8) -> Option<Seq<u8>>
    decreases features.len(),
{
    if features.len() == 0 {
        None
    } else if features[0].0 == id {
        Some(features[0].1)
    } else {
        feature_de(features.drop_first(), id)
    }
}

impl View for FakeTransport {
    type V = FakeView;

    closed spec fn view(&self) -> FakeView {
        FakeView {
            leituras: Seq::new(self.leituras@.len(), |i: int| self.leituras@[i]@),
            features: Seq::new(self.features@.len(), |i: int| (self.features@[i].0, self.features@[i].1@)),
            escrito: Seq::new(self.escrito@.len(), |i: int| self.escrito@[i]@),
            some: self.some,
            some_no_fim: self.some_no_fim,
        }
    }
}

/// `destino` after copying into it as much of `origem` as fits.
pub open spec fn copiado(destino: Seq<u8>, origem: Seq<u8>) -> Seq<u8> {
    let n = min_int(destino.len() as int, origem.len() as int);
    origem.subrange(0, n) + destino.subrange(n, destino.len() as int)
}

impl FakeTransport {
    /// A transport with nothing queued, nothing registered, that never fails.
    pub fn new() -> (t: FakeTransport)
        ensures
            t@.leituras.len() == 0,
            t@.features.len() == 0,
            t@.escrito.len() == 0,
            !t@.some,
            !t@.some_no_fim,
    {
        let t = FakeTransport {
            leituras: std::collections::VecDeque::new(),
            features: Vec::new(),
            escrito: Vec::new(),
            some: false,
            some_no_fim: false,
        };
        assert(t@.leituras =~= Seq::<Seq<u8>>::empty());
        assert(t@.features =~= Seq::<(u8, Seq<u8>)>::empty());
        assert(t@.escrito =~= Seq::<Seq<u8>>::empty());
        t
    }

    /// Queues a report that a later read will return.
    pub fn com_leitura(self, dados: Vec<u8>) -> (t: FakeTransport)
        ensures
            t@ == (FakeView { leituras: self@.leituras.push(dados@), ..self@ }),
    {
        let mut t = self;
        t.leituras.push_back(dados);
        assert(t@.leituras =~= self@.leituras.push(dados@));
        assert(t@.features =~= self@.features);
        assert(t@.escrito =~= self@.escrito);
        t
    }

    /// Registers the answer of a feature report; a newer one replaces an older one.
    pub fn com_feature(self, report_id: u8, dados: Vec<u8>) -> (t: FakeTransport)
        ensures
            t@ == (FakeView { features: seq![(report_id, dados@)] + self@.features, ..self@ }),
    {
        let mut t = self;
        t.features.insert(0, (report_id, dados));
        assert(t@.features =~= seq![(report_id, dados@)] + self@.features);
        assert(t@.leituras =~= self@.leituras);
        assert(t@.escrito =~= self@.escrito);
        t
    }

    /// Every operation fails from now on, as if the dongle had been removed.
    pub fn que_some(self) -> (t: FakeTransport)
        ensures
            t@ == (FakeView { some: true, ..self@ }),
    {
        let mut t = self;
        t.some = true;
        assert(t@.leituras =~= self@.leituras);
        assert(t@.features =~= self@.features);
        assert(t@.escrito =~= self@.escrito);
        t
    }

    /// Delivers the queued reports, and only then vanishes: that is how a
    /// real session ends.
    pub fn que_some_depois_das_leituras(self) -> (t: FakeTransport)
        ensures
            t@ == (FakeView { some_no_fim: true, ..self@ }),
    {
        let mut t = self;
        t.some_no_fim = true;
        assert(t@.leituras =~= self@.leituras);
        assert(t@.features =~= self@.features);
        assert(t@.escrito =~= self@.escrito);
        t
    }

    /// Everything written so far, in order.
    pub fn registro(&self) -> (r: &Vec<Vec<u8>>)
        ensures
            r@.len() == self@.escrito.len(),
            forall|i: int| 0 <= i < r@.len() ==> #[trigger] r@[i]@ == self@.escrito[i],
    {
        &self.escrito
    }

    fn registra(&mut self, data: &[u8])
        ensures
            final(self)@ == (FakeView { escrito: old(self)@.escrito.push(data@), ..old(self)@ }),
    {
        let ghost antes = self@;
        self.escrito.push(vstd::slice::slice_to_vec(data));
        assert(self@.escrito =~= antes.escrito.push(data@));
        assert(self@.leituras =~= antes.leituras);
        assert(self@.features =~= antes.features);
    }

    /// The failure of a removed dongle.
    pub fn sumiu() -> (f: FalhaFake)
        ensures
            f == FalhaFake::Sumiu,
    {
        FalhaFake::Sumiu
    }

    /// Copies as much of `origem` as fits into `destino`; returns how much.
    pub fn copia(destino: &mut [u8], origem: &[u8]) -> (n: usize)
        ensures
            n == min_int(old(destino)@.len() as int, origem@.len() as int),
            final(destino)@ == copiado(old(destino)@, origem@),
    {
        let n = if origem.len() < destino.len() { origem.len() } else { destino.len() };
        let mut i: usize = 0;
        while i < n
            invariant
                n == min_int(old(destino)@.len() as int, origem@.len() as int),
                i <= n,
                destino@.len() == old(destino)@.len(),
                forall|k: int| 0 <= k < i ==> destino@[k] == origem@[k],
                forall|k: int| i <= k < destino@.len() ==> destino@[k] == old(destino)@[k],
            decreases n - i,
        {
            destino[i] = origem[i];
            i = i + 1;
        }
        assert(destino@ =~= copiado(old(destino)@, origem@));
        n
    }

    /// Waits for the next report.
    pub fn read(&mut self, buf: &mut [u8]) -> (r: Leitura)
        ensures
            old(self)@.some ==> r == Leitura::Falha(FalhaFake::Sumiu) && final(self)@ == old(self)@ && final(buf)@ == old(buf)@,
            !old(self)@.some && old(self)@.leituras.len() > 0 ==> {
                &&& final(self)@ == (FakeView { leituras: old(self)@.leituras.drop_first(), ..old(self)@ })
                &&& r == Leitura::Bytes(min_int(old(buf)@.len() as int, old(self)@.leituras[0].len() as int) as usize)
                &&& final(buf)@ == copiado(old(buf)@, old(self)@.leituras[0])
            },
            !old(self)@.some && old(self)@.leituras.len() == 0 ==> {
                &&& final(self)@ == old(self)@
                &&& final(buf)@ == old(buf)@
                &&& r == if old(self)@.some_no_fim { Leitura::Falha(FalhaFake::Sumiu) } else { Leitura::Silencio }
            },
    {
        if self.some {
            return Leitura::Falha(Self::sumiu());
        }
        let ghost antes = self@;
        match self.leituras.pop_front() {
            Some(dados) => {
                assert(self@.leituras =~= antes.leituras.drop_first());
                assert(self@.features =~= antes.features);
                assert(self@.escrito =~= antes.escrito);
                Leitura::Bytes(Self::copia(buf, dados.as_slice()))
            },
            None => {
                assert(self@.leituras =~= antes.leituras);
                assert(self@.features =~= antes.features);
                assert(self@.escrito =~= antes.escrito);
                if self.some_no_fim {
                    Leitura::Falha(Self::sumiu())
                } else {
                    Leitura::Silencio
                }
            },
        }
    }

    /// Sends an output report; it is recorded.
    pub fn write(&mut self, data: &[u8]) -> (r: Result<(), FalhaFake>)
        ensures
            old(self)@.some ==> r == Err::<(), FalhaFake>(FalhaFake::Sumiu) && final(self)@ == old(self)@,
            !old(self)@.some ==> r is Ok && final(self)@ == (FakeView { escrito: old(self)@.escrito.push(data@), ..old(self)@ }),
    {
        if self.some {
            return Err(Self::sumiu());
        }
        self.registra(data);
        Ok(())
    }

    /// Reads a feature report: the registered answer, copied into `buf`.
    pub fn get_feature(&mut self, report_id: u8, buf: &mut [u8]) -> (r: Result<usize, FalhaFake>)
        ensures
            final(self)@ == old(self)@,
            old(self)@.some ==> r == Err::<usize, FalhaFake>(FalhaFake::Sumiu) && final(buf)@ == old(buf)@,
            !old(self)@.some ==> match feature_de(old(self)@.features, report_id) {
                Some(dados) => r == Ok::<usize, FalhaFake>(min_int(old(buf)@.len() as int, dados.len() as int) as usize)
                    && final(buf)@ == copiado(old(buf)@, dados),
                None => r == Err::<usize, FalhaFake>(FalhaFake::SemFeature) && final(buf)@ == old(buf)@,
            },
    {
        if self.some {
            return Err(Self::sumiu());
        }
        let mut i: usize = 0;
        assert(self@.features.subrange(0, self@.features.len() as int) =~= self@.features);
        while i < self.features.len()
            invariant
                !self@.some,
                self@ == old(self)@,
                0 <= i <= self@.features.len(),
                self@.features.len() == self.features@.len(),
                forall|k: int| 0 <= k < self@.features.len() ==> #[trigger] self@.features[k] == (self.features@[k].0, self.features@[k].1@),
                feature_de(self@.features, report_id) == feature_de(self@.features.subrange(i as int, self@.features.len() as int), report_id),
                buf@ == old(buf)@,
            decreases self@.features.len() - i,
        {
            let ghost resto = self@.features.subrange(i as int, self@.features.len() as int);
            if self.features[i].0 == report_id {
                assert(resto[0] == self@.features[i as int]);
                return Ok(Self::copia(buf, self.features[i].1.as_slice()));
            }
            assert(resto.drop_first() =~= self@.features.subrange(i + 1, self@.features.len() as int));
            i = i + 1;
        }
        Err(FalhaFake::SemFeature)
    }

    /// Sends a feature report; it is recorded.
    pub fn set_feature(&mut self, data: &[u8]) -> (r: Result<(), FalhaFake>)
        ensures
            old(self)@.some ==> r == Err::<(), FalhaFake>(FalhaFake::Sumiu) && final(self)@ == old(self)@,
            !old(self)@.some ==> r is Ok && final(self)@ == (FakeView { escrito: old(self)@.escrito.push(data@), ..old(self)@ }),
    {
        if self.some {
            return Err(Self::sumiu());
        }
        self.registra(data);
        Ok(())
    }
}

} // verus!
