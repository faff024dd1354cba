use vstd::prelude::*;

verus! {

/// How PCI configuration space is reached; the bus-scanning code is
/// written against this, and each platform's port driver implements it.
pub trait ConfigAccess {
    fn read_nolock(&self, bus: u8, dev: u8, func: u8, offset: u16) -> u32;

    fn read(&self, bus: u8, dev: u8, func: u8, offset: u16) -> u32;

    fn write_nolock(&self, bus: u8, dev: u8, func: u8, offset: u16, value: u32);

    fn write(&self, bus: u8, dev: u8, func: u8, offset: u16, value: u32);
}

/// One numbered PCI bus, reached through a configuration access.
pub struct PciBus<A: ConfigAccess> {
    pub pci: A,
    pub num: u8,
}

impl<A: ConfigAccess> PciBus<A> {
    /// An iterator over the 32 device slots of this bus.
    pub fn devices(&self) -> (r: PciBusIter<'_, A>)
        ensures
            r.bus == self,
            r.num == 0,
    {
        PciBusIter::new(self)
    }

    /// Reads one configuration word of a device on this bus.
    pub fn read(&self, dev: u8, func: u8, offset: u16) -> u32 {
        self.pci.read(self.num, dev, func, offset)
    }

    /// Writes one configuration word of a device on this bus.
    pub fn write(&self, dev: u8, func: u8, offset: u16, value: u32) {
        self.pci.write(self.num, dev, func, offset, value)
    }
}

/// One device slot on a bus.
pub struct PciDevice<'pci, A: ConfigAccess> {
    pub bus: &'pci PciBus<A>,
    pub num: u8,
}

/// Walks the 32 device slots of one bus in order.
pub struct PciBusIter<'pci, A: ConfigAccess> {
    pub bus: &'pci PciBus<A>,
    pub num: u8,
}

impl<'pci, A: ConfigAccess> PciBusIter<'pci, A> {
    /// An iterator at the first slot of the bus.
    pub fn new(bus: &'pci PciBus<A>) -> (r: PciBusIter<'pci, A>)
        ensures
            r.bus == bus,
            r.num == 0,
    {
        PciBusIter { bus, num: 0 }
    }

    /// The next device slot: each of the slots 0 through 31 once, in
    /// order, each borrowing this iterator's bus, then nothing.
    pub fn next(&mut self) -> (r: Option<PciDevice<'pci, A>>)
        ensures
            final(self).bus == old(self).bus,
            old(self).num < 32 ==> final(self).num == old(self).num + 1 && (r matches Some(d)
                && d.num == old(self).num && d.bus == old(self).bus),
            old(self).num >= 32 ==> final(self).num == old(self).num && r is None,
    {
        if self.num < 32 {
            let dev = PciDevice { bus: self.bus, num: self.num };
            self.num += 1;
            return Some(dev);
        }
        None
    }
}

} // verus!
