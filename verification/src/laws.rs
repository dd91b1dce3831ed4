//! Laws of the driver's command traces, proved once and for all
//! configurations: statements that span several operations or every
//! input, stated over the same trace model the driver's own contracts
//! use.

use vstd::prelude::*;

use crate::bus::{antennas_exclusive, rxen_after, txen_after, BusEvent, Frame};
use crate::lora_config::LoRaConfig;
use crate::sx1268_driver::{
    be32, freq_reg, header_byte, init_mosi, init_orig, init_prefix_ok, ldro_byte, tx_trace_ok,
    CRYSTAL_HZ, OP_SET_RF_FREQUENCY, OP_WRITE_BUFFER,
};

verus! {

/// Law: for every configuration, the initialization sequence contains
/// exactly one frequency-register write — the fourteenth command — and
/// the register it writes satisfies `reg * crystal == hz * 2^25` exactly,
/// so the truncating computation agrees with rounding for every carrier
/// the module supports.
pub proof fn lemma_init_single_frequency_write(cfg: LoRaConfig, orig: u8)
    ensures
        init_mosi(cfg, orig, 13) == seq![OP_SET_RF_FREQUENCY] + be32(
            freq_reg(cfg.frequency.spec_hz()),
        ),
        forall|i: int|
            0 <= i < 20 && i != 13 ==> (#[trigger] init_mosi(cfg, orig, i)).len() > 0 && init_mosi(
                cfg,
                orig,
                i,
            )[0] != OP_SET_RF_FREQUENCY,
        (freq_reg(cfg.frequency.spec_hz()) as int) * (CRYSTAL_HZ as int) == (
        cfg.frequency.spec_hz() as int) * 0x2000000,
{
    assert forall|i: int| 0 <= i < 20 && i != 13 implies (#[trigger] init_mosi(
        cfg,
        orig,
        i,
    )).len() > 0 && init_mosi(cfg, orig, i)[0] != OP_SET_RF_FREQUENCY by {
        assert(init_mosi(cfg, orig, i).len() > 0);
        assert(init_mosi(cfg, orig, i)[0] != OP_SET_RF_FREQUENCY);
    }
    let hz = cfg.frequency.spec_hz();
    assert((freq_reg(hz) as int) * (CRYSTAL_HZ as int) == (hz as int) * 0x2000000) by {
        assert((410_000_000int * 0x2000000) % 32_000_000 == 0);
        assert((433_000_000int * 0x2000000) % 32_000_000 == 0);
        assert((441_000_000int * 0x2000000) % 32_000_000 == 0);
        assert((470_000_000int * 0x2000000) % 32_000_000 == 0);
        assert((490_000_000int * 0x2000000) % 32_000_000 == 0);
        assert((510_000_000int * 0x2000000) % 32_000_000 == 0);
    };
}

/// Law: the initialization trace is a function of the configuration and
/// of the byte the self test read back, alone.  Two complete traces for
/// the same configuration whose self tests read the same scratch byte
/// issue identical command bytes — re-running initialization is
/// idempotent.
pub proof fn lemma_init_deterministic(cfg: LoRaConfig, fs1: Seq<Frame>, fs2: Seq<Frame>)
    requires
        init_prefix_ok(cfg, fs1, 20),
        init_prefix_ok(cfg, fs2, 20),
        init_orig(fs1) == init_orig(fs2),
    ensures
        forall|i: int| 0 <= i < 20 ==> (#[trigger] fs1[i]).mosi == fs2[i].mosi,
{
}

/// Law: the modulation command's low-data-rate-optimization byte is set
/// exactly for spreading factors 11 and 12, and clear for 7 through 10.
pub proof fn lemma_ldro_forced(cfg: LoRaConfig, orig: u8)
    ensures
        init_mosi(cfg, orig, 17).len() == 5,
        init_mosi(cfg, orig, 17)[4] == ldro_byte(cfg.spreading_factor.spec_sf()),
        cfg.spreading_factor.spec_sf() >= 11 <==> init_mosi(cfg, orig, 17)[4] == 1,
        cfg.spreading_factor.spec_sf() <= 10 <==> init_mosi(cfg, orig, 17)[4] == 0,
{
}

/// Law: a completed send writes exactly the payload to the buffer-write
/// command, and its packet-parameter update differs from the one issued
/// at initialization only in the payload-length field: preamble, header
/// type, CRC and IQ-invert are the values established at initialization.
pub proof fn lemma_send_preserves_packet_params(
    cfg: LoRaConfig,
    payload: Seq<u8>,
    fs: Seq<Frame>,
    orig: u8,
)
    requires
        payload.len() <= 255,
        tx_trace_ok(
            cfg.preamble_length,
            header_byte(cfg.explicit_header),
            cfg.crc_enabled,
            false,
            payload,
            fs,
        ),
    ensures
        fs[1].mosi == seq![OP_WRITE_BUFFER, 0u8] + payload,
        fs[1].mosi.len() == 2 + payload.len(),
        fs[2].mosi.len() == 7,
        init_mosi(cfg, orig, 18).len() == 7,
        fs[2].mosi[4] == payload.len() as u8,
        init_mosi(cfg, orig, 18)[4] == 0xFF,
        forall|j: int|
            0 <= j < 7 && j != 4 ==> (#[trigger] fs[2].mosi[j]) == init_mosi(cfg, orig, 18)[j],
{
    assert(fs[1].mosi == seq![OP_WRITE_BUFFER, 0u8] + payload);
    let m = fs[2].mosi;
    let n = init_mosi(cfg, orig, 18);
    assert(m.len() == 7);
    assert(n.len() == 7);
    assert forall|j: int| 0 <= j < 7 && j != 4 implies (#[trigger] m[j]) == n[j] by {
        assert(m[0] == n[0]);
        assert(m[1] == n[1]);
        assert(m[2] == n[2]);
        assert(m[3] == n[3]);
        assert(m[5] == n[5]);
        assert(m[6] == n[6]);
    }
}

/// Law: in a history satisfying the antenna-exclusion invariant, there is
/// no point — between or during operations — at which both
/// antenna-direction enables were high.
pub proof fn lemma_antennas_never_both_high(evs: Seq<BusEvent>, i: int)
    requires
        antennas_exclusive(evs),
        0 <= i <= evs.len(),
    ensures
        !(txen_after(evs.take(i)) && rxen_after(evs.take(i))),
{
}

} // verus!
