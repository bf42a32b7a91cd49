use vstd::prelude::*;
use crate::bytes::{has_prefix, starts_with};
use crate::scheme::Scheme;

verus! {

/// Container families, told apart by the first bytes of a file.
#[derive(Debug, Clone, Copy, PartialEq, Eq, Structural)]
pub enum Archive {
    ACV1,
    CPZ7,
    GXP,
    PF8,
    YPF,
    BURIKO,
    EscArc2,
    Malie,
    Silky,
    NotRecognized,
}

pub open spec fn sig_acv1() -> Seq<u8> { seq![0x41u8, 0x43, 0x56, 0x31] }
pub open spec fn sig_cpz7() -> Seq<u8> { seq![0x43u8, 0x50, 0x5A, 0x37] }
pub open spec fn sig_gxp() -> Seq<u8> { seq![0x47u8, 0x58, 0x50, 0x00] }
pub open spec fn sig_pf8() -> Seq<u8> { seq![0x70u8, 0x66, 0x38] }
pub open spec fn sig_ypf() -> Seq<u8> { seq![0x59u8, 0x50, 0x46, 0x00] }
/// "BURIKO ARC20"
pub open spec fn sig_buriko() -> Seq<u8> {
    seq![0x42u8, 0x55, 0x52, 0x49, 0x4b, 0x4f, 0x20, 0x41, 0x52, 0x43, 0x32, 0x30]
}
/// "ESC-ARC2"
pub open spec fn sig_esc_arc2() -> Seq<u8> { seq![0x45u8, 0x53, 0x43, 0x2D, 0x41, 0x52, 0x43, 0x32] }
/// The Malie engine writes no magic; each known game has one fixed leading word.
pub open spec fn sig_malie_a() -> Seq<u8> { seq![0xc1u8, 0xf2, 0x5e, 0x79] }
pub open spec fn sig_malie_b() -> Seq<u8> { seq![0x7fu8, 0x4d, 0x8f, 0xe9] }

/// The family whose signature `buf` begins with, the first in order that matches.
pub open spec fn archive_of(buf: Seq<u8>) -> Archive {
    if starts_with(buf, sig_acv1()) {
        Archive::ACV1
    } else if starts_with(buf, sig_cpz7()) {
        Archive::CPZ7
    } else if starts_with(buf, sig_gxp()) {
        Archive::GXP
    } else if starts_with(buf, sig_pf8()) {
        Archive::PF8
    } else if starts_with(buf, sig_ypf()) {
        Archive::YPF
    } else if starts_with(buf, sig_buriko()) {
        Archive::BURIKO
    } else if starts_with(buf, sig_esc_arc2()) {
        Archive::EscArc2
    } else if starts_with(buf, sig_malie_a()) || starts_with(buf, sig_malie_b()) {
        Archive::Malie
    } else {
        Archive::NotRecognized
    }
}

/// Families whose layout describes itself, so that one scheme reads every archive of it.
pub open spec fn universal(a: Archive) -> bool {
    match a {
        Archive::GXP | Archive::PF8 | Archive::YPF | Archive::BURIKO | Archive::EscArc2
        | Archive::Silky => true,
        _ => false,
    }
}

/// The schemes registered for a family, in the order they are offered.
pub open spec fn schemes_of(a: Archive) -> Seq<Scheme> {
    match a {
        Archive::ACV1 => seq![Scheme::Acv1],
        Archive::CPZ7 => seq![Scheme::Cpz7],
        Archive::GXP => seq![Scheme::Gxp],
        Archive::PF8 => seq![Scheme::Pf8],
        Archive::YPF => seq![Scheme::Ypf],
        Archive::BURIKO => seq![Scheme::Buriko],
        Archive::EscArc2 => seq![Scheme::EscArc2],
        Archive::Malie => seq![Scheme::Malie],
        Archive::Silky => seq![Scheme::Silky],
        Archive::NotRecognized => Seq::empty(),
    }
}

/// Every family, in declaration order.
pub open spec fn all_families() -> Seq<Archive> {
    seq![
        Archive::ACV1,
        Archive::CPZ7,
        Archive::GXP,
        Archive::PF8,
        Archive::YPF,
        Archive::BURIKO,
        Archive::EscArc2,
        Archive::Malie,
        Archive::Silky,
        Archive::NotRecognized,
    ]
}

/// The schemes of the first `n` families, one family after another.
pub open spec fn schemes_of_first(n: nat) -> Seq<Scheme>
    decreases n,
{
    if n == 0 {
        Seq::empty()
    } else {
        schemes_of_first((n - 1) as nat) + schemes_of(all_families()[n - 1])
    }
}

/// The schemes of every family, one family after another.
pub open spec fn all_schemes() -> Seq<Scheme> {
    schemes_of_first(all_families().len())
}

impl Archive {
    /// Detects the container family from the first bytes of a file.
    pub fn parse(buf: &[u8]) -> (r: Archive)
        ensures
            r == archive_of(buf@),
    {
        let s_acv1: [u8; 4] = [0x41, 0x43, 0x56, 0x31];
        let s_cpz7: [u8; 4] = [0x43, 0x50, 0x5A, 0x37];
        let s_gxp: [u8; 4] = [0x47, 0x58, 0x50, 0x00];
        let s_pf8: [u8; 3] = [0x70, 0x66, 0x38];
        let s_ypf: [u8; 4] = [0x59, 0x50, 0x46, 0x00];
        let s_buriko: [u8; 12] = [0x42, 0x55, 0x52, 0x49, 0x4b, 0x4f, 0x20, 0x41, 0x52, 0x43, 0x32, 0x30];
        let s_esc: [u8; 8] = [0x45, 0x53, 0x43, 0x2D, 0x41, 0x52, 0x43, 0x32];
        let s_malie_a: [u8; 4] = [0xc1, 0xf2, 0x5e, 0x79];
        let s_malie_b: [u8; 4] = [0x7f, 0x4d, 0x8f, 0xe9];
        assert(s_acv1@ =~= sig_acv1());
        assert(s_cpz7@ =~= sig_cpz7());
        assert(s_gxp@ =~= sig_gxp());
        assert(s_pf8@ =~= sig_pf8());
        assert(s_ypf@ =~= sig_ypf());
        assert(s_buriko@ =~= sig_buriko());
        assert(s_esc@ =~= sig_esc_arc2());
        assert(s_malie_a@ =~= sig_malie_a());
        assert(s_malie_b@ =~= sig_malie_b());
        if has_prefix(buf, &s_acv1) {
            Archive::ACV1
        } else if has_prefix(buf, &s_cpz7) {
            Archive::CPZ7
        } else if has_prefix(buf, &s_gxp) {
            Archive::GXP
        } else if has_prefix(buf, &s_pf8) {
            Archive::PF8
        } else if has_prefix(buf, &s_ypf) {
            Archive::YPF
        } else if has_prefix(buf, &s_buriko) {
            Archive::BURIKO
        } else if has_prefix(buf, &s_esc) {
            Archive::EscArc2
        } else if has_prefix(buf, &s_malie_a) || has_prefix(buf, &s_malie_b) {
            Archive::Malie
        } else {
            Archive::NotRecognized
        }
    }

    /// Whether one scheme, with no game-specific key, extracts every archive of this family.
    pub fn is_universal(&self) -> (r: bool)
        ensures
            r == universal(*self),
    {
        match self {
            Archive::ACV1 => false,
            Archive::CPZ7 => false,
            Archive::GXP => true,
            Archive::PF8 => true,
            Archive::YPF => true,
            Archive::BURIKO => true,
            Archive::EscArc2 => true,
            Archive::Malie => false,
            Archive::Silky => true,
            Archive::NotRecognized => false,
        }
    }

    /// The schemes registered for this family, in the order they are offered.
    pub fn get_schemes(&self) -> (r: Vec<Scheme>)
        ensures
            r@ == schemes_of(*self),
    {
        let r = match self {
            Archive::ACV1 => vec![Scheme::Acv1],
            Archive::CPZ7 => vec![Scheme::Cpz7],
            Archive::GXP => vec![Scheme::Gxp],
            Archive::PF8 => vec![Scheme::Pf8],
            Archive::YPF => vec![Scheme::Ypf],
            Archive::BURIKO => vec![Scheme::Buriko],
            Archive::EscArc2 => vec![Scheme::EscArc2],
            Archive::Malie => vec![Scheme::Malie],
            Archive::Silky => vec![Scheme::Silky],
            Archive::NotRecognized => Vec::new(),
        };
        assert(r@ =~= schemes_of(*self));
        r
    }

    /// Every registered scheme: the lists of all families, one after another.
    pub fn get_all_schemes() -> (r: Vec<Scheme>)
        ensures
            r@ == all_schemes(),
    {
        let families: [Archive; 10] = [
            Archive::ACV1,
            Archive::CPZ7,
            Archive::GXP,
            Archive::PF8,
            Archive::YPF,
            Archive::BURIKO,
            Archive::EscArc2,
            Archive::Malie,
            Archive::Silky,
            Archive::NotRecognized,
        ];
        assert(families@ =~= all_families());
        let mut out: Vec<Scheme> = Vec::new();
        let mut i: usize = 0;
        while i < 10
            invariant
                i <= 10,
                families@ == all_families(),
                out@ == schemes_of_first(i as nat),
            decreases 10 - i,
        {
            let mut more = families[i].get_schemes();
            out.append(&mut more);
            i = i + 1;
        }
        out
    }
}

/// A buffer that begins with a registered signature is classified as that
/// signature's family, and one too short for any signature as `NotRecognized`.
pub proof fn lemma_signatures_classify(buf: Seq<u8>)
    ensures
        starts_with(buf, sig_acv1()) ==> archive_of(buf) == Archive::ACV1,
        starts_with(buf, sig_cpz7()) ==> archive_of(buf) == Archive::CPZ7,
        starts_with(buf, sig_gxp()) ==> archive_of(buf) == Archive::GXP,
        starts_with(buf, sig_pf8()) ==> archive_of(buf) == Archive::PF8,
        starts_with(buf, sig_ypf()) ==> archive_of(buf) == Archive::YPF,
        starts_with(buf, sig_buriko()) ==> archive_of(buf) == Archive::BURIKO,
        starts_with(buf, sig_esc_arc2()) ==> archive_of(buf) == Archive::EscArc2,
        starts_with(buf, sig_malie_a()) ==> archive_of(buf) == Archive::Malie,
        starts_with(buf, sig_malie_b()) ==> archive_of(buf) == Archive::Malie,
        buf.len() < 3 ==> archive_of(buf) == Archive::NotRecognized,
{
    let sigs = seq![
        sig_acv1(),
        sig_cpz7(),
        sig_gxp(),
        sig_pf8(),
        sig_ypf(),
        sig_buriko(),
        sig_esc_arc2(),
        sig_malie_a(),
        sig_malie_b(),
    ];
    assert forall|k: int| 0 <= k < sigs.len() && starts_with(buf, #[trigger] sigs[k]) implies buf[0]
        == sigs[k][0] by {
        assert(buf.subrange(0, sigs[k].len() as int)[0] == buf[0]);
    }
    assert(sigs[0] == sig_acv1());
    assert(sigs[1] == sig_cpz7());
    assert(sigs[2] == sig_gxp());
    assert(sigs[3] == sig_pf8());
    assert(sigs[4] == sig_ypf());
    assert(sigs[5] == sig_buriko());
    assert(sigs[6] == sig_esc_arc2());
    assert(sigs[7] == sig_malie_a());
    assert(sigs[8] == sig_malie_b());
}

} // verus!
