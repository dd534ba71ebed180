//! Serial-port metadata and the byte buffer that collects raw serial input.

pub mod log;

use vstd::prelude::*;

use crate::text::{hex4, hex4_string, push_str};

verus! {

// ---------------------------------------------------------------------------
// Port metadata
// ---------------------------------------------------------------------------

/// What a USB serial adapter reports about itself.
pub struct UsbInfo {
    pub vid: u16,
    pub pid: u16,
    pub manufacturer: Option<String>,
    pub product: Option<String>,
    pub serial_number: Option<String>,
}

/// Metadata about a serial port visible on the host system.
pub struct PortInfo {
    /// System port name (e.g. `COM3` on Windows, `/dev/ttyUSB0` on Linux).
    pub port_name: String,
    /// Optional USB vendor ID (hex string, e.g. `"1a86"`).
    pub vid: Option<String>,
    /// Optional USB product ID (hex string, e.g. `"7523"`).
    pub pid: Option<String>,
    /// Optional manufacturer string reported by the USB device.
    pub manufacturer: Option<String>,
    /// Optional product / friendly name.
    pub product: Option<String>,
    /// Optional USB serial number string.
    pub serial_number: Option<String>,
}

/// The view of an optional string: its characters, if any.
pub open spec fn opt_view(o: Option<String>) -> Option<Seq<char>> {
    match o {
        Some(s) => Some(s@),
        None => None,
    }
}

impl PortInfo {
    /// The metadata reported for a port named `port_name`: USB ports carry
    /// their vendor and product ids as four lower-case hex digits and the
    /// strings the device reports; other ports carry the name alone.
    pub fn from_port(port_name: String, usb: Option<UsbInfo>) -> (r: PortInfo)
        ensures
            r.port_name@ == port_name@,
            match usb {
                Some(u) => {
                    &&& opt_view(r.vid) == Some(hex4(u.vid))
                    &&& opt_view(r.pid) == Some(hex4(u.pid))
                    &&& opt_view(r.manufacturer) == opt_view(u.manufacturer)
                    &&& opt_view(r.product) == opt_view(u.product)
                    &&& opt_view(r.serial_number) == opt_view(u.serial_number)
                },
                None => {
                    &&& r.vid is None
                    &&& r.pid is None
                    &&& r.manufacturer is None
                    &&& r.product is None
                    &&& r.serial_number is None
                },
            },
    {
        match usb {
            Some(u) => PortInfo {
                port_name,
                vid: Some(hex4_string(u.vid)),
                pid: Some(hex4_string(u.pid)),
                manufacturer: u.manufacturer,
                product: u.product,
                serial_number: u.serial_number,
            },
            None => PortInfo {
                port_name,
                vid: None,
                pid: None,
                manufacturer: None,
                product: None,
                serial_number: None,
            },
        }
    }
}

/// The listing line for one port: two spaces and its name, and for a USB port
/// `"  USB VID:vvvv PID:pppp "` followed by its product name, if any.
pub open spec fn port_line(name: Seq<char>, usb: Option<(u16, u16, Option<Seq<char>>)>) -> Seq<
    char,
> {
    let extra = match usb {
        Some((vid, pid, product)) => "  USB VID:"@ + hex4(vid) + " PID:"@ + hex4(pid) + " "@
            + match product {
            Some(p) => p,
            None => Seq::<char>::empty(),
        },
        None => Seq::<char>::empty(),
    };
    "  "@ + name + extra
}

/// The listing line printed for a port (see `port_line`).
pub fn describe_port(port_name: &str, usb: &Option<UsbInfo>) -> (r: String)
    ensures
        r@ == port_line(
            port_name@,
            match usb {
                Some(u) => Some((u.vid, u.pid, opt_view(u.product))),
                None => None,
            },
        ),
{
    let mut r = String::new();
    push_str(&mut r, "  ");
    push_str(&mut r, port_name);
    match usb {
        Some(u) => {
            push_str(&mut r, "  USB VID:");
            let v = hex4_string(u.vid);
            push_str(&mut r, v.as_str());
            push_str(&mut r, " PID:");
            let p = hex4_string(u.pid);
            push_str(&mut r, p.as_str());
            push_str(&mut r, " ");
            match &u.product {
                Some(name) => {
                    push_str(&mut r, name.as_str());
                },
                None => {},
            }
        },
        None => {},
    }
    r
}

// ---------------------------------------------------------------------------
// Byte buffer
// ---------------------------------------------------------------------------

/// The newest `cap` bytes of `s` (all of `s` if it is no longer than `cap`).
pub open spec fn window(s: Seq<u8>, cap: nat) -> Seq<u8> {
    if s.len() <= cap {
        s
    } else {
        s.subrange(s.len() - cap, s.len() as int)
    }
}

/// A bounded buffer for accumulating bytes read from a serial port before
/// they are parsed by the ISP protocol layer. When it is full, the oldest
/// bytes are discarded.
pub struct SerialBuffer {
    inner: Vec<u8>,
    capacity: usize,
}

impl View for SerialBuffer {
    type V = Seq<u8>;

    closed spec fn view(&self) -> Seq<u8> {
        self.inner@
    }
}

impl SerialBuffer {
    #[verifier::type_invariant]
    closed spec fn within_capacity(self) -> bool {
        self.inner@.len() <= self.capacity
    }

    /// The most bytes the buffer holds.
    pub closed spec fn capacity(&self) -> nat {
        self.capacity as nat
    }

    /// An empty buffer that keeps at most `capacity` bytes.
    pub fn new(capacity: usize) -> (r: Self)
        ensures
            r@ == Seq::<u8>::empty(),
            r.capacity() == capacity,
    {
        SerialBuffer { inner: Vec::with_capacity(capacity), capacity }
    }

    /// Appends `data`, discarding the oldest bytes when the capacity limit is
    /// reached: afterwards the buffer holds the newest `capacity` bytes of
    /// what it held followed by `data` (only the newest `capacity` bytes of
    /// `data` itself when `data` is longer than the capacity).
    pub fn push(&mut self, data: &[u8])
        ensures
            final(self).capacity() == old(self).capacity(),
            final(self)@ == window(old(self)@ + data@, old(self).capacity()),
            final(self)@.len() <= final(self).capacity(),
    {
        proof {
            use_type_invariant(&*self);
        }
        let len = self.inner.len();
        let room = self.capacity - len;
        let ghost total = self.inner@ + data@;
        // How many of the oldest bytes of old contents plus `data` to drop.
        let skip: usize = if data.len() > room {
            data.len() - room
        } else {
            0
        };
        let skip_old: usize = if skip < len {
            skip
        } else {
            len
        };
        let skip_new: usize = skip - skip_old;
        assert(skip_new <= data@.len());
        let mut next: Vec<u8> = Vec::new();
        let mut i: usize = skip_old;
        while i < len
            invariant
                skip_old <= len,
                len == self.inner@.len(),
                skip_old <= i <= len,
                next@ == self.inner@.subrange(skip_old as int, i as int),
            decreases len - i,
        {
            next.push(self.inner[i]);
            i = i + 1;
        }
        let mut j: usize = skip_new;
        while j < data.len()
            invariant
                skip_old <= len,
                len == self.inner@.len(),
                skip_new <= j <= data@.len(),
                next@ == self.inner@.subrange(skip_old as int, len as int) + data@.subrange(
                    skip_new as int,
                    j as int,
                ),
            decreases data@.len() - j,
        {
            next.push(data[j]);
            j = j + 1;
        }
        assert(next@ =~= total.subrange(skip as int, total.len() as int));
        assert(skip == 0 ==> next@ =~= total);
        self.inner = next;
    }

    /// Takes every byte out of the buffer, leaving it empty.
    pub fn drain(&mut self) -> (r: Vec<u8>)
        ensures
            r@ == old(self)@,
            final(self)@ == Seq::<u8>::empty(),
            final(self).capacity() == old(self).capacity(),
    {
        let mut out: Vec<u8> = Vec::new();
        std::mem::swap(&mut out, &mut self.inner);
        out
    }

    /// The number of bytes held.
    pub fn len(&self) -> (r: usize)
        ensures
            r == self@.len(),
            r <= self.capacity(),
    {
        proof {
            use_type_invariant(self);
        }
        self.inner.len()
    }

    /// Whether the buffer holds no bytes.
    pub fn is_empty(&self) -> (r: bool)
        ensures
            r == (self@.len() == 0),
    {
        self.inner.len() == 0
    }
}

/// Pushing `a` and then `b` leaves the same bytes as pushing `a` followed by
/// `b` at once: the buffer always holds the newest bytes of everything pushed.
pub proof fn lemma_push_compose(s: Seq<u8>, a: Seq<u8>, b: Seq<u8>, cap: nat)
    ensures
        window(window(s + a, cap) + b, cap) == window(s + a + b, cap),
{
    let x = s + a;
    let y = window(x, cap) + b;
    let z = x + b;
    if x.len() > cap {
        if y.len() > cap {
            assert(y.subrange(y.len() - cap, y.len() as int) =~= z.subrange(
                z.len() - cap,
                z.len() as int,
            ));
        }
    } else {
        assert(y =~= z);
    }
}

/// Pushing at least a full buffer's worth of bytes leaves only the newest
/// bytes of what was pushed: nothing older survives.
pub proof fn lemma_push_overwrites(s: Seq<u8>, data: Seq<u8>, cap: nat)
    requires
        data.len() >= cap,
    ensures
        window(s + data, cap) == data.subrange(data.len() - cap, data.len() as int),
{
    let t = s + data;
    if t.len() > cap {
        assert(t.subrange(t.len() - cap, t.len() as int) =~= data.subrange(
            data.len() - cap,
            data.len() as int,
        ));
    } else {
        assert(s.len() == 0 && data.len() == cap);
        assert(t =~= data);
        assert(data.subrange(0, data.len() as int) =~= data);
    }
}

/// Whatever is pushed, the buffer never holds more than its capacity.
pub proof fn lemma_window_bounded(s: Seq<u8>, cap: nat)
    ensures
        window(s, cap).len() <= cap,
        s.len() <= cap ==> window(s, cap) == s,
{
}

} // verus!
