use vstd::prelude::*;

verus! {

/// The connection state that the device list reports for a device.
#[derive(Debug, Clone, PartialEq, Eq)]
pub enum DeviceStatus {
    Online,
    Offline,
    Unauthorized,
    Recovery,
    Sideload,
    Bootloader,
    Other(String),
}

/// The lower-case form of a text, as `str::to_lowercase` gives it.
pub uninterp spec fn lower_of(s: Seq<char>) -> Seq<char>;

/// Relies on `str::to_lowercase`: the result depends on the characters alone.
#[verifier::external_body]
fn lowercase(s: &str) -> (r: String)
    ensures
        r@ == lower_of(s@),
{
    s.to_lowercase()
}

/// The status that a state word names once lower-cased; `None` for a word
/// that names none of the known states.
pub open spec fn known_status(lower: Seq<char>) -> Option<DeviceStatus> {
    if lower == "device"@ || lower == "online"@ {
        Some(DeviceStatus::Online)
    } else if lower == "offline"@ {
        Some(DeviceStatus::Offline)
    } else if lower == "unauthorized"@ {
        Some(DeviceStatus::Unauthorized)
    } else if lower == "recovery"@ {
        Some(DeviceStatus::Recovery)
    } else if lower == "sideload"@ {
        Some(DeviceStatus::Sideload)
    } else if lower == "bootloader"@ || lower == "fastboot"@ {
        Some(DeviceStatus::Bootloader)
    } else {
        None
    }
}

/// The text of a status as the device list writes it.
pub open spec fn status_text(s: DeviceStatus) -> Seq<char> {
    match s {
        DeviceStatus::Online => "online"@,
        DeviceStatus::Offline => "offline"@,
        DeviceStatus::Unauthorized => "unauthorized"@,
        DeviceStatus::Recovery => "recovery"@,
        DeviceStatus::Sideload => "sideload"@,
        DeviceStatus::Bootloader => "bootloader"@,
        DeviceStatus::Other(t) => t@,
    }
}

/// Whether `s` is the status that the state word `w` names.
pub open spec fn status_of_word(s: DeviceStatus, w: Seq<char>) -> bool {
    match known_status(lower_of(w)) {
        Some(k) => s == k,
        None => s is Other && status_text(s) == w,
    }
}

pub(crate) fn same_text(a: &String, b: &str) -> (r: bool)
    ensures
        r == (a@ == b@),
{
    let b = b.to_owned();
    *a == b
}

impl DeviceStatus {
    /// Reads a state word, ignoring case. `device` and `online` both mean
    /// online, `fastboot` means the bootloader; any other word is kept as it
    /// was written.
    pub fn parse(s: &str) -> (r: DeviceStatus)
        ensures
            status_of_word(r, s@),
    {
        let lower = lowercase(s);
        if same_text(&lower, "device") || same_text(&lower, "online") {
            DeviceStatus::Online
        } else if same_text(&lower, "offline") {
            DeviceStatus::Offline
        } else if same_text(&lower, "unauthorized") {
            DeviceStatus::Unauthorized
        } else if same_text(&lower, "recovery") {
            DeviceStatus::Recovery
        } else if same_text(&lower, "sideload") {
            DeviceStatus::Sideload
        } else if same_text(&lower, "bootloader") || same_text(&lower, "fastboot") {
            DeviceStatus::Bootloader
        } else {
            DeviceStatus::Other(s.to_owned())
        }
    }

    /// The text of this status as the device list writes it.
    pub fn to_string(&self) -> (r: String)
        ensures
            r@ == status_text(*self),
    {
        match self {
            DeviceStatus::Online => String::from_str("online"),
            DeviceStatus::Offline => String::from_str("offline"),
            DeviceStatus::Unauthorized => String::from_str("unauthorized"),
            DeviceStatus::Recovery => String::from_str("recovery"),
            DeviceStatus::Sideload => String::from_str("sideload"),
            DeviceStatus::Bootloader => String::from_str("bootloader"),
            DeviceStatus::Other(t) => t.clone(),
        }
    }
}

/// Whether the keys of a list of pairs are pairwise distinct.
pub open spec fn keys_distinct(p: Seq<(String, String)>) -> bool {
    forall|i: int, j: int| 0 <= i < j < p.len() ==> p[i].0@ != p[j].0@
}

/// The map that a list of pairs with distinct keys stands for.
pub open spec fn pairs_map(p: Seq<(String, String)>) -> Map<Seq<char>, Seq<char>> {
    Map::new(
        |k: Seq<char>| exists|i: int| 0 <= i < p.len() && p[i].0@ == k,
        |k: Seq<char>| p[choose|i: int| 0 <= i < p.len() && p[i].0@ == k].1@,
    )
}

fn find_key(props: &Vec<(String, String)>, key: &String) -> (r: Option<usize>)
    ensures
        r is Some ==> r->0 < props.len() && props@[r->0 as int].0@ == key@,
        r is None ==> forall|j: int| 0 <= j < props.len() ==> props@[j].0@ != key@,
{
    let mut i: usize = 0;
    while i < props.len()
        invariant
            i <= props.len(),
            forall|j: int| 0 <= j < i ==> props@[j].0@ != key@,
        decreases props.len() - i,
    {
        if props[i].0 == *key {
            return Some(i);
        }
        i = i + 1;
    }
    None
}

/// Sets `k` to `v` in a list of pairs with distinct keys, replacing an
/// earlier value of `k` in place or else appending the pair.
pub fn set_pair(props: &mut Vec<(String, String)>, k: String, v: String)
    requires
        keys_distinct(old(props)@),
    ensures
        keys_distinct(final(props)@),
        pairs_map(final(props)@) == pairs_map(old(props)@).insert(k@, v@),
{
    let ghost kv = k@;
    let ghost vv = v@;
    let ghost before = old(props)@;
    let found = find_key(props, &k);
    let ghost pos: int;
    match found {
        Some(i) => {
            props.set(i, (k, v));
            proof {
                pos = i as int;
            }
        },
        None => {
            props.push((k, v));
            proof {
                pos = before.len() as int;
            }
        },
    }
    proof {
        let after = props@;
        assert(after[pos].0@ == kv && after[pos].1@ == vv);
        assert(forall|j: int| 0 <= j < after.len() && j != pos ==> j < before.len() && after[j] == before[j]);
        assert(keys_distinct(after));
        assert(pairs_map(after) =~= pairs_map(before).insert(kv, vv)) by {
            assert forall|q: Seq<char>| #[trigger] pairs_map(after).contains_key(q)
                <==> pairs_map(before).insert(kv, vv).contains_key(q) by {
                if q != kv && pairs_map(before).contains_key(q) {
                    let j = choose|j: int| 0 <= j < before.len() && before[j].0@ == q;
                    assert(after[j].0@ == q);
                }
                if q == kv {
                    assert(after[pos].0@ == q);
                }
                if pairs_map(after).contains_key(q) && q != kv {
                    let j = choose|j: int| 0 <= j < after.len() && after[j].0@ == q;
                    assert(before[j].0@ == q);
                }
            }
            assert forall|q: Seq<char>| #[trigger] pairs_map(after).contains_key(q)
                implies pairs_map(after)[q] == pairs_map(before).insert(kv, vv)[q] by {
                let j = choose|j: int| 0 <= j < after.len() && after[j].0@ == q;
                if q == kv {
                    assert(j == pos);
                } else {
                    let jb = choose|jb: int| 0 <= jb < before.len() && before[jb].0@ == q;
                    assert(after[jb].0@ == q);
                    assert(jb == j);
                }
            }
        }
    }
}

/// A device as the device list reports it.
#[derive(Debug, Clone)]
pub struct ADBDevice {
    pub id: String,
    pub name: String,
    pub model: Option<String>,
    pub product: Option<String>,
    pub transport_id: Option<String>,
    pub status: DeviceStatus,
    /// Named properties, one pair per name.
    pub properties: Option<Vec<(String, String)>>,
}

impl ADBDevice {
    /// The named properties of the device, empty when there are none.
    pub open spec fn property_map(&self) -> Map<Seq<char>, Seq<char>> {
        match self.properties {
            Some(p) => pairs_map(p@),
            None => Map::empty(),
        }
    }

    /// Each property name occurs once.
    pub open spec fn wf(&self) -> bool {
        match self.properties {
            Some(p) => keys_distinct(p@),
            None => true,
        }
    }

    /// Whether `other` equals this device in every field but those named
    /// by the flags.
    pub open spec fn same_except(
        &self,
        other: &ADBDevice,
        name: bool,
        model: bool,
        product: bool,
        transport: bool,
        properties: bool,
    ) -> bool {
        &&& other.id == self.id
        &&& other.status == self.status
        &&& (name || other.name == self.name)
        &&& (model || other.model == self.model)
        &&& (product || other.product == self.product)
        &&& (transport || other.transport_id == self.transport_id)
        &&& (properties || other.properties == self.properties)
    }

    /// A device with the given id and status, named `Device <id>`, with no
    /// other details.
    pub fn new(id: &str, status: DeviceStatus) -> (r: ADBDevice)
        ensures
            r.wf(),
            r.id@ == id@,
            r.name@ == "Device "@ + id@,
            r.status == status,
            r.model is None && r.product is None && r.transport_id is None,
            r.properties is None,
    {
        ADBDevice {
            id: id.to_owned(),
            name: String::from_str("Device ").concat(id),
            model: None,
            product: None,
            transport_id: None,
            status,
            properties: None,
        }
    }

    /// Whether the device is online.
    pub fn is_online(&self) -> (r: bool)
        ensures
            r == (self.status is Online),
    {
        match self.status {
            DeviceStatus::Online => true,
            _ => false,
        }
    }

    /// This device under another name.
    pub fn with_name(self, name: &str) -> (r: ADBDevice)
        ensures
            r.name@ == name@,
            self.same_except(&r, true, false, false, false, false),
    {
        let mut d = self;
        d.name = name.to_owned();
        d
    }

    /// This device with its model set.
    pub fn with_model(self, model: &str) -> (r: ADBDevice)
        ensures
            r.model is Some && r.model->0@ == model@,
            self.same_except(&r, false, true, false, false, false),
    {
        let mut d = self;
        d.model = Some(model.to_owned());
        d
    }

    /// This device with its product set.
    pub fn with_product(self, product: &str) -> (r: ADBDevice)
        ensures
            r.product is Some && r.product->0@ == product@,
            self.same_except(&r, false, false, true, false, false),
    {
        let mut d = self;
        d.product = Some(product.to_owned());
        d
    }

    /// This device with its transport id set.
    pub fn with_transport_id(self, transport_id: &str) -> (r: ADBDevice)
        ensures
            r.transport_id is Some && r.transport_id->0@ == transport_id@,
            self.same_except(&r, false, false, false, true, false),
    {
        let mut d = self;
        d.transport_id = Some(transport_id.to_owned());
        d
    }

    /// This device with the property `key` set to `value`, replacing an
    /// earlier value of `key`.
    pub fn add_property(self, key: &str, value: &str) -> (r: ADBDevice)
        requires
            self.wf(),
        ensures
            r.wf(),
            r.properties is Some,
            r.property_map() == self.property_map().insert(key@, value@),
            self.same_except(&r, false, false, false, false, true),
    {
        let mut d = self;
        let mut props = match d.properties {
            Some(p) => p,
            None => Vec::new(),
        };
        let ghost before = props@;
        assert(pairs_map(before) == self.property_map());
        set_pair(&mut props, key.to_owned(), value.to_owned());
        d.properties = Some(props);
        d
    }
}

} // verus!
