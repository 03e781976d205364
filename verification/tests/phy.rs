use eth_mac::phy::{
    GenericSMI, PHY, PHY_REG_BCR, PHY_REG_BCR_100M, PHY_REG_BCR_AN, PHY_REG_BCR_ANRST,
    PHY_REG_BCR_RESET, PHY_REG_BSR, PHY_REG_BSR_ANDONE, PHY_REG_BSR_UP, PHY_REG_SSR,
    PHY_REG_SSR_100BASE_FD, PHY_REG_SSR_ANDONE,
};
use eth_mac::smi::{Bus, LoopbackPhy, StationManagement};

const SSR_100_FD: u16 = PHY_REG_SSR_ANDONE | PHY_REG_SSR_100BASE_FD;
const BSR_UP: u16 = PHY_REG_BSR_ANDONE | PHY_REG_BSR_UP;

fn phy_reporting(bsr: u16, ssr: u16) -> Bus<LoopbackPhy> {
    let mut phy = LoopbackPhy::new();
    phy.smi_write(PHY_REG_BSR, bsr);
    phy.smi_write(PHY_REG_SSR, ssr);
    Bus::new(phy)
}

#[test]
fn register_written_reads_back() {
    let mut phy = LoopbackPhy::new();
    phy.smi_write(4, 0x1801);
    assert_eq!(phy.smi_read(4), 0x1801);
    assert_eq!(phy.smi_read(4), 0x1801);
}

#[test]
fn registers_start_at_zero_and_do_not_disturb_each_other() {
    let mut phy = LoopbackPhy::new();
    for reg in 0..32u8 {
        assert_eq!(phy.smi_read(reg), 0);
    }
    phy.smi_write(0, 0xffff);
    phy.smi_write(31, 0x1234);
    assert_eq!(phy.smi_read(0), 0xffff);
    assert_eq!(phy.smi_read(31), 0x1234);
    for reg in 1..31u8 {
        assert_eq!(phy.smi_read(reg), 0);
    }
}

#[test]
fn link_up_full_duplex_100_is_ready() {
    let mut phy = phy_reporting(BSR_UP, SSR_100_FD);
    assert!(GenericSMI::poll_link(&mut phy));
}

#[test]
fn link_down_is_not_ready_whatever_the_mode() {
    for speed in 0..8u16 {
        let mut phy = phy_reporting(PHY_REG_BSR_ANDONE, PHY_REG_SSR_ANDONE | (speed << 2));
        assert!(!GenericSMI::poll_link(&mut phy));
    }
    let mut phy = phy_reporting(0, SSR_100_FD);
    assert!(!GenericSMI::poll_link(&mut phy));
}

#[test]
fn link_ready_needs_every_condition() {
    assert!(GenericSMI::link_ready(0x0024, 0x1018));
    assert!(GenericSMI::link_ready(0xffff, 0xfffb));
    assert!(!GenericSMI::link_ready(0x0004, 0x1018));
    assert!(!GenericSMI::link_ready(0x0020, 0x1018));
    assert!(!GenericSMI::link_ready(0x0024, 0x0018));
    assert!(!GenericSMI::link_ready(0x0024, 0x1014));
    assert!(!GenericSMI::link_ready(0x0024, 0x1008));
    assert!(!GenericSMI::link_ready(0x0024, 0x1004));
    assert!(!GenericSMI::link_ready(0x0024, 0x101c));
    assert!(!GenericSMI::link_ready(0, 0));
}

#[test]
fn poll_link_leaves_the_registers_alone() {
    let mut phy = phy_reporting(BSR_UP, SSR_100_FD);
    assert!(GenericSMI::poll_link(&mut phy));
    assert!(GenericSMI::poll_link(&mut phy));
    assert_eq!(phy.smi_read(PHY_REG_BSR), BSR_UP);
    assert_eq!(phy.smi_read(PHY_REG_SSR), SSR_100_FD);
}

#[test]
fn init_enables_auto_negotiation() {
    let mut phy = Bus::new(LoopbackPhy::new());
    GenericSMI::phy_init(&mut phy);
    assert_eq!(
        phy.smi_read(PHY_REG_BCR),
        PHY_REG_BCR_AN | PHY_REG_BCR_ANRST | PHY_REG_BCR_100M
    );
    assert_eq!(phy.smi_read(PHY_REG_BCR), 0x3200);
    assert_eq!(phy.smi_read(0x0D), 0x4003);
    assert_eq!(phy.smi_read(0x0E), 0);
}

#[test]
fn extended_write_ends_with_the_data() {
    let mut phy = Bus::new(LoopbackPhy::new());
    GenericSMI::smi_write_ext(&mut phy, 0x8010, 0xbeef);
    assert_eq!(phy.smi_read(0x0D), 0x4003);
    assert_eq!(phy.smi_read(0x0E), 0xbeef);
}

#[test]
fn reset_gives_up_on_a_phy_that_never_clears_the_bit() {
    let mut bus = Bus::new(LoopbackPhy::new());
    assert!(!GenericSMI::phy_reset(&mut bus));
    let mut phy = bus.into_station();
    assert_eq!(phy.smi_read(PHY_REG_BCR), PHY_REG_BCR_RESET);
}

struct ClearsAfter {
    reads_left: u32,
    control: u16,
}

impl StationManagement for ClearsAfter {
    fn smi_read(&mut self, reg: u8) -> u16 {
        if reg != PHY_REG_BCR {
            return 0;
        }
        if self.reads_left == 0 {
            self.control &= !PHY_REG_BCR_RESET;
        } else {
            self.reads_left -= 1;
        }
        self.control
    }

    fn smi_write(&mut self, reg: u8, val: u16) {
        if reg == PHY_REG_BCR {
            self.control = val;
        }
    }
}

#[test]
fn reset_waits_until_the_phy_clears_the_bit() {
    for reads_left in [0u32, 1, 5, 1000] {
        let mut bus = Bus::new(ClearsAfter { reads_left, control: 0 });
        assert!(GenericSMI::phy_reset(&mut bus));
        let phy = bus.into_station();
        assert_eq!(phy.reads_left, 0);
        assert_eq!(phy.control, 0);
    }
}

#[test]
fn bus_passes_transactions_through() {
    let mut bus = Bus::new(LoopbackPhy::new());
    bus.smi_write(4, 0x1801);
    assert_eq!(bus.smi_read(4), 0x1801);
    let mut phy = bus.into_station();
    assert_eq!(phy.smi_read(4), 0x1801);
}
