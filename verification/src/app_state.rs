//! The shared control-surface state: the screen, the device selection, the
//! capture flag and the bounded ring of recently captured packet summaries.
//! A rendering loop reads it; the capture worker appends to it; everything
//! here is plain state logic, with the device list handed in as names.

use vstd::prelude::*;
use vstd::string::StringExecFns;

verus! {

/// Capacity of the ring of recent packet summaries.
pub const PACKET_RING_CAPACITY: usize = 1000;

#[derive(Clone, Copy, PartialEq, Eq, Structural, Debug)]
pub enum CurrentScreen {
    Main,
    SelectNetwork,
    Exiting,
}

/// The application state shared between the renderer and the capture
/// worker.
pub struct App {
    pub current_screen: CurrentScreen,
    /// The name of the selected capture device.
    pub selected_device: Option<String>,
    /// The ring of recent packet summaries, oldest first, each with its
    /// running count.
    pub captured_packets: Vec<(usize, String)>,
    pub is_capturing: bool,
    /// The names of the devices the last scan found.
    pub available_devices: Vec<String>,
    pub selected_device_index: usize,
    pub packet_count: usize,
    pub message: Option<String>,
    pub device_changed: bool,
    /// 0 selects Yes, 1 selects No on the exit screen.
    pub exit_selected_button: usize,
}

impl App {
    /// A fresh state: main screen, nothing selected, capture off.
    pub fn new() -> (r: App)
        ensures
            r.current_screen == CurrentScreen::Main,
            r.selected_device is None,
            r.captured_packets@.len() == 0,
            !r.is_capturing,
            r.available_devices@.len() == 0,
            r.selected_device_index == 0,
            r.packet_count == 0,
            r.message is None,
            !r.device_changed,
            r.exit_selected_button == 0,
    {
        App {
            current_screen: CurrentScreen::Main,
            selected_device: None,
            captured_packets: Vec::new(),
            is_capturing: false,
            available_devices: Vec::new(),
            selected_device_index: 0,
            packet_count: 0,
            message: None,
            device_changed: false,
            exit_selected_button: 0,
        }
    }

    /// Flips the capture flag; refused, with a message, while no device is
    /// selected.
    pub fn toggle_capture(&mut self) -> (r: bool)
        ensures
            r == old(self).selected_device is Some,
            old(self).selected_device is Some ==> final(self).is_capturing == !old(self).is_capturing && final(self).message is None,
            old(self).selected_device is None ==> final(self).is_capturing == old(self).is_capturing && (final(self).message matches Some(m) && m@
                == "ネットワークデバイスを選択してからCaptureを開始してください。"@),
            final(self).selected_device == old(self).selected_device,
            final(self).captured_packets@ == old(self).captured_packets@,
            final(self).packet_count == old(self).packet_count,
            final(self).current_screen == old(self).current_screen,
    {
        if self.selected_device.is_some() {
            self.message = None;
            self.is_capturing = !self.is_capturing;
            true
        } else {
            self.set_message("ネットワークデバイスを選択してからCaptureを開始してください。");
            false
        }
    }

    /// Appends one packet summary to the ring, dropping the oldest entry
    /// once the ring is full, and advances the running count.
    pub fn add_captured_packet(&mut self, packet_info: String)
        requires
            old(self).packet_count < usize::MAX,
        ensures
            final(self).packet_count == old(self).packet_count + 1,
            old(self).captured_packets@.len() < PACKET_RING_CAPACITY ==> final(self).captured_packets@ == old(self).captured_packets@.push(
                ((old(self).packet_count + 1) as usize, packet_info),
            ),
            old(self).captured_packets@.len() >= PACKET_RING_CAPACITY ==> final(self).captured_packets@ == old(self).captured_packets@.skip(1).push(
                ((old(self).packet_count + 1) as usize, packet_info),
            ),
            final(self).is_capturing == old(self).is_capturing,
            final(self).selected_device == old(self).selected_device,
    {
        if self.captured_packets.len() >= PACKET_RING_CAPACITY {
            let ghost before = self.captured_packets@;
            self.captured_packets.remove(0);
            proof {
                assert(self.captured_packets@ =~= before.skip(1));
            }
        }
        self.packet_count = self.packet_count + 1;
        self.captured_packets.push((self.packet_count, packet_info));
    }

    /// Moves the device cursor forward, wrapping at the end of the list.
    pub fn next_device(&mut self)
        ensures
            old(self).available_devices@.len() == 0 ==> final(self).selected_device_index == old(self).selected_device_index,
            old(self).available_devices@.len() > 0 ==> final(self).selected_device_index as int
                == (old(self).selected_device_index + 1) as int % old(self).available_devices@.len() as int,
            final(self).available_devices@ == old(self).available_devices@,
            final(self).selected_device == old(self).selected_device,
    {
        if self.available_devices.len() > 0 {
            self.selected_device_index = next_index(
                self.selected_device_index,
                self.available_devices.len(),
            );
        }
    }

    /// Moves the device cursor backward, wrapping at the front of the list.
    pub fn previous_device(&mut self)
        ensures
            old(self).available_devices@.len() == 0 ==> final(self).selected_device_index == old(self).selected_device_index,
            old(self).available_devices@.len() > 0 ==> final(self).selected_device_index == (
            if old(self).selected_device_index > 0 {
                old(self).selected_device_index - 1
            } else {
                old(self).available_devices@.len() - 1
            }),
            final(self).available_devices@ == old(self).available_devices@,
            final(self).selected_device == old(self).selected_device,
    {
        if self.available_devices.len() > 0 {
            if self.selected_device_index > 0 {
                self.selected_device_index = self.selected_device_index - 1;
            } else {
                self.selected_device_index = self.available_devices.len() - 1;
            }
        }
    }

    /// Takes the device under the cursor as the selected one; selecting a
    /// different device stops a running capture and flags the change for the
    /// worker.
    pub fn select_current_device(&mut self)
        ensures
            ({
                let devs = old(self).available_devices@;
                let idx = old(self).selected_device_index as int;
                if idx < devs.len() && (match old(self).selected_device {
                    Some(cur) => cur@ != devs[idx]@,
                    None => true,
                }) {
                    (final(self).selected_device matches Some(n) && n@ == devs[idx]@) && !final(self).is_capturing && final(self).device_changed && (final(self).message matches Some(m) && m@ == "デバイス "@ + devs[idx]@
                        + " を選択しました"@)
                } else {
                    final(self).selected_device == old(self).selected_device && final(self).is_capturing == old(self).is_capturing && final(self).device_changed == old(self).device_changed
                }
            }),
            final(self).available_devices@ == old(self).available_devices@,
            final(self).selected_device_index == old(self).selected_device_index,
    {
        if self.selected_device_index < self.available_devices.len() {
            let differs = match &self.selected_device {
                Some(cur) => !device_names_equal(
                    cur,
                    &self.available_devices[self.selected_device_index],
                ),
                None => true,
            };
            if differs {
                let new_name = self.available_devices[self.selected_device_index].clone();
                let mut m = String::from_str("デバイス ");
                m.append(new_name.as_str());
                m.append(" を選択しました");
                self.selected_device = Some(new_name);
                self.message = Some(m);
                if self.is_capturing {
                    self.is_capturing = false;
                }
                self.device_changed = true;
            }
        }
    }

    /// Returns the state to its start, taking the result of a fresh device
    /// scan: its names on success, or nothing when the scan failed, which
    /// leaves a message.
    pub fn reset(&mut self, scanned_devices: Option<Vec<String>>)
        ensures
            final(self).current_screen == CurrentScreen::Main,
            final(self).selected_device is None,
            final(self).captured_packets@.len() == 0,
            !final(self).is_capturing,
            final(self).selected_device_index == 0,
            final(self).packet_count == 0,
            match scanned_devices {
                Some(devs) => final(self).available_devices@ == devs@ && final(self).message
                    is None,
                None => final(self).available_devices@.len() == 0 && (final(self).message matches Some(m) && m@
                    == "ネットワークデバイスのスキャンに失敗しました。"@),
            },
    {
        self.current_screen = CurrentScreen::Main;
        self.selected_device = None;
        self.captured_packets.clear();
        self.is_capturing = false;
        self.selected_device_index = 0;
        self.packet_count = 0;
        self.message = None;
        match scanned_devices {
            Some(devs) => {
                self.available_devices = devs;
            },
            None => {
                self.available_devices.clear();
                self.set_message("ネットワークデバイスのスキャンに失敗しました。");
            },
        }
    }

    /// Puts a message in the footer.
    pub fn set_message(&mut self, message: &str)
        ensures
            final(self).message matches Some(m) && m@ == message@,
            final(self).selected_device == old(self).selected_device,
            final(self).is_capturing == old(self).is_capturing,
            final(self).captured_packets@ == old(self).captured_packets@,
            final(self).packet_count == old(self).packet_count,
            final(self).current_screen == old(self).current_screen,
            final(self).available_devices@ == old(self).available_devices@,
            final(self).selected_device_index == old(self).selected_device_index,
            final(self).device_changed == old(self).device_changed,
    {
        self.message = Some(message.to_owned());
    }
}

/// Whether two device names are the same text.
pub fn device_names_equal(a: &String, b: &String) -> (r: bool)
    ensures
        r == (a@ == b@),
{
    a.eq(b)
}

fn next_index(x: usize, m: usize) -> (out: usize)
    requires
        m > 0,
    ensures
        out == (x + 1) as int % m as int,
{
    let rem = x % m;
    proof {
        assert((x + 1) as int % m as int == (rem + 1) as int % m as int) by (nonlinear_arith)
            requires
                m > 0,
                rem == x as int % m as int,
        ;
    }
    if rem + 1 == m {
        proof {
            assert((rem + 1) as int % m as int == 0) by (nonlinear_arith)
                requires
                    m > 0,
                    rem as int + 1 == m as int,
            ;
        }
        0
    } else {
        proof {
            assert((rem + 1) as int % m as int == rem as int + 1) by (nonlinear_arith)
                requires
                    m > 0,
                    rem as int + 1 < m as int,
            ;
        }
        rem + 1
    }
}

} // verus!
