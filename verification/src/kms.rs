//! The surfaces that drive outputs, and their gamma tables.

use vstd::prelude::*;

use crate::gamma_control::GammaControlState;
use crate::ramps::GammaRamps;

verus! {

/// A surface: what scans out to one connector.
#[derive(Debug)]
pub struct Surface {
    /// The output that it drives.
    pub output: u64,
    /// The output that this output mirrors, if any.
    pub mirroring: Option<u64>,
    /// The display controller that it scans out with.
    pub crtc: u32,
    /// The gamma ramps that it has been given, `None` for the original tables.
    pub gamma: Option<GammaRamps>,
}

/// A graphics device.
#[derive(Debug)]
pub struct Device {
    /// Its surfaces, in the order in which they are walked.
    pub surfaces: Vec<Surface>,
}

/// What the compositor runs on.
#[derive(Debug)]
pub enum BackendData {
    /// Graphics devices with mode setting, in the order in which they are walked.
    Kms(Vec<Device>),
    /// Anything else: a window, or nothing yet.
    Other,
}

/// The compositor's state, as far as gamma control goes.
#[derive(Debug)]
pub struct State<G> {
    /// What it runs on.
    pub backend: BackendData,
    /// The state of the gamma control protocol.
    pub gamma_control_state: GammaControlState<G>,
}

/// The place of a surface: its device, and its place among the device's surfaces.
#[derive(Debug, Clone, Copy, PartialEq, Eq, Structural)]
pub struct SurfaceId {
    /// Place of the device.
    pub device: usize,
    /// Place of the surface on the device.
    pub surface: usize,
}

/// The values of three ramps.
pub type RampValues = (Seq<u16>, Seq<u16>, Seq<u16>);

/// The values of the ramps, if any.
pub open spec fn ramp_values(ramps: Option<GammaRamps>) -> Option<RampValues> {
    match ramps {
        Some(ramps) => Some((ramps.0@, ramps.1@, ramps.2@)),
        None => None,
    }
}

/// What a surface is.
pub ghost struct SurfaceState {
    pub output: u64,
    pub mirroring: Option<u64>,
    pub crtc: u32,
    pub gamma: Option<RampValues>,
}

impl SurfaceState {
    /// Does the surface show the output: drive it, or drive one that mirrors it?
    pub open spec fn shows(self, output: u64) -> bool {
        self.output == output || self.mirroring == Some(output)
    }
}

impl View for Surface {
    type V = SurfaceState;

    open spec fn view(&self) -> SurfaceState {
        SurfaceState {
            output: self.output,
            mirroring: self.mirroring,
            crtc: self.crtc,
            gamma: ramp_values(self.gamma),
        }
    }
}

impl View for Device {
    type V = Seq<SurfaceState>;

    open spec fn view(&self) -> Seq<SurfaceState> {
        self.surfaces@.map_values(|surface: Surface| surface@)
    }
}

/// What the devices hold.
pub open spec fn device_states(devices: Seq<Device>) -> Seq<Seq<SurfaceState>> {
    devices.map_values(|device: Device| device@)
}

impl View for BackendData {
    type V = Seq<Seq<SurfaceState>>;

    /// The surfaces of each device; none without mode setting.
    open spec fn view(&self) -> Seq<Seq<SurfaceState>> {
        match *self {
            BackendData::Kms(devices) => device_states(devices@),
            BackendData::Other => Seq::empty(),
        }
    }
}

/// The places of the surfaces of the device `device`, which has `count` of them.
pub open spec fn device_places(device: int, count: nat) -> Seq<SurfaceId> {
    Seq::new(count, |i: int| SurfaceId { device: device as usize, surface: i as usize })
}

/// The places of all surfaces, device by device.
pub open spec fn places(devices: Seq<Seq<SurfaceState>>) -> Seq<SurfaceId>
    decreases devices.len(),
{
    if devices.len() == 0 {
        Seq::empty()
    } else {
        places(devices.drop_last()) + device_places(devices.len() - 1, devices.last().len())
    }
}

/// The surface at a place.
pub open spec fn surface_at(devices: Seq<Seq<SurfaceState>>, id: SurfaceId) -> SurfaceState {
    devices[id.device as int][id.surface as int]
}

/// Is there a surface at the place?
pub open spec fn is_place(devices: Seq<Seq<SurfaceState>>, id: SurfaceId) -> bool {
    id.device < devices.len() && id.surface < devices[id.device as int].len()
}

/// The places of all surfaces: none without mode setting.
pub fn kms_surfaces<G>(state: &State<G>) -> (ids: Vec<SurfaceId>)
    ensures
        ids@ == places(state.backend@),
{
    let mut ids: Vec<SurfaceId> = Vec::new();
    if let BackendData::Kms(devices) = &state.backend {
        let mut d: usize = 0;
        while d < devices.len()
            invariant
                d <= devices@.len(),
                state.backend@ == device_states(devices@),
                ids@ == places(state.backend@.take(d as int)),
            decreases devices.len() - d,
        {
            let count: usize = devices[d].surfaces.len();
            let ghost before = ids@;
            let mut s: usize = 0;
            while s < count
                invariant
                    s <= count,
                    ids@ == before + device_places(d as int, s as nat),
                decreases count - s,
            {
                ids.push(SurfaceId { device: d, surface: s });
                s += 1;
                assert(ids@ =~= before + device_places(d as int, s as nat));
            }
            let ghost walked = state.backend@.take(d as int + 1);
            assert(walked.drop_last() =~= state.backend@.take(d as int));
            assert(walked.last() == devices@[d as int]@);
            d += 1;
        }
        assert(state.backend@.take(d as int) =~= state.backend@);
    }
    ids
}

/// The machine's limit on the number of devices and of surfaces on each.
pub open spec fn countable(devices: Seq<Seq<SurfaceState>>) -> bool {
    &&& devices.len() <= usize::MAX
    &&& forall|d: int| 0 <= d < devices.len() ==> #[trigger] devices[d].len() <= usize::MAX
}

/// What a backend holds is countable.
proof fn lemma_backend_countable(backend: &BackendData)
    ensures
        countable(backend@),
{
    if let BackendData::Kms(devices) = backend {
        assert(devices@.len() == devices.len());
        assert forall|d: int| 0 <= d < backend@.len() implies #[trigger] backend@[d].len()
            <= usize::MAX by {
            assert(backend@[d] == devices@[d]@);
            assert(devices@[d].surfaces@.len() == devices@[d].surfaces.len());
        }
    }
}

/// Each place on the list is one where a surface is.
proof fn lemma_places_hold(devices: Seq<Seq<SurfaceState>>, i: int)
    requires
        countable(devices),
        0 <= i < places(devices).len(),
    ensures
        is_place(devices, places(devices)[i]),
    decreases devices.len(),
{
    let rest = devices.drop_last();
    if i < places(rest).len() {
        assert forall|d: int| 0 <= d < rest.len() implies #[trigger] rest[d].len()
            <= usize::MAX by {
            assert(rest[d] == devices[d]);
        }
        lemma_places_hold(rest, i);
        assert(places(devices)[i] == places(rest)[i]);
    } else {
        assert(devices[devices.len() - 1].len() <= usize::MAX);
    }
}

/// Every surface is walked, each once: the list of places holds exactly the
/// places where surfaces are, and none of them twice.
pub proof fn law_places_complete(devices: Seq<Seq<SurfaceState>>)
    requires
        countable(devices),
    ensures
        forall|id: SurfaceId| is_place(devices, id) <==> #[trigger] places(devices).contains(id),
        places(devices).no_duplicates(),
    decreases devices.len(),
{
    if devices.len() > 0 {
        let rest = devices.drop_last();
        let last = device_places(devices.len() - 1, devices.last().len());
        assert forall|d: int| 0 <= d < rest.len() implies #[trigger] rest[d].len()
            <= usize::MAX by {
            assert(rest[d] == devices[d]);
        }
        assert(devices[devices.len() - 1].len() <= usize::MAX);
        law_places_complete(rest);
        assert forall|id: SurfaceId| is_place(devices, id) implies #[trigger] places(
            devices,
        ).contains(id) by {
            if id.device == devices.len() - 1 {
                assert(last[id.surface as int] == id);
                assert(places(devices)[places(rest).len() + id.surface] == id);
            } else {
                assert(rest[id.device as int] == devices[id.device as int]);
                assert(places(rest).contains(id));
                let k = choose|k: int| 0 <= k < places(rest).len() && places(rest)[k] == id;
                assert(places(devices)[k] == id);
            }
        }
        assert forall|id: SurfaceId| #[trigger] places(devices).contains(id) implies is_place(
            devices,
            id,
        ) by {
            let k = choose|k: int| 0 <= k < places(devices).len() && places(devices)[k] == id;
            lemma_places_hold(devices, k);
        }
        assert forall|a: int, b: int|
            0 <= a < b < places(devices).len() implies places(devices)[a] != places(devices)[b] by {
            if b < places(rest).len() {
                assert(places(devices)[a] == places(rest)[a]);
                assert(places(devices)[b] == places(rest)[b]);
            } else if a < places(rest).len() {
                lemma_places_hold(rest, a);
                assert(places(devices)[a] == places(rest)[a]);
                assert(places(devices)[b] == last[b - places(rest).len()]);
            } else {
                assert(places(devices)[a] == last[a - places(rest).len()]);
                assert(places(devices)[b] == last[b - places(rest).len()]);
            }
        }
    } else {
        assert forall|id: SurfaceId| !places(devices).contains(id) by {}
    }
}

/// The surface at a place.
fn find_surface(devices: &Vec<Device>, id: SurfaceId) -> (surface: &Surface)
    requires
        is_place(device_states(devices@), id),
    ensures
        surface@ == surface_at(device_states(devices@), id),
{
    assert(device_states(devices@)[id.device as int] == devices@[id.device as int]@);
    &devices[id.device].surfaces[id.surface]
}

impl Surface {
    /// Does the surface show the output: drive it, or drive one that mirrors it?
    pub fn shows(&self, output: u64) -> (r: bool)
        ensures
            r == self@.shows(output),
    {
        self.output == output || match self.mirroring {
            Some(mirrored) => mirrored == output,
            None => false,
        }
    }
}

/// The places of the surfaces of an output, and of all outputs mirroring it.
pub fn kms_surfaces_for_output<G>(state: &State<G>, output: u64) -> (ids: Vec<SurfaceId>)
    ensures
        ids@ == places(state.backend@).filter(
            |id: SurfaceId| surface_at(state.backend@, id).shows(output),
        ),
{
    let all = kms_surfaces(state);
    let ghost wanted = |id: SurfaceId| surface_at(state.backend@, id).shows(output);
    let mut ids: Vec<SurfaceId> = Vec::new();
    proof {
        lemma_backend_countable(&state.backend);
        reveal_with_fuel(Seq::filter, 1);
        assert(all@.take(0).filter(wanted) =~= Seq::empty());
    }
    if let BackendData::Kms(devices) = &state.backend {
        let mut i: usize = 0;
        while i < all.len()
            invariant
                i <= all.len(),
                all@ == places(state.backend@),
                state.backend@ == device_states(devices@),
                countable(state.backend@),
                wanted == (|id: SurfaceId| surface_at(state.backend@, id).shows(output)),
                ids@ == all@.take(i as int).filter(wanted),
            decreases all.len() - i,
        {
            let id = all[i];
            proof {
                lemma_places_hold(state.backend@, i as int);
                reveal_with_fuel(Seq::filter, 2);
                assert(all@.take(i as int + 1).drop_last() =~= all@.take(i as int));
            }
            if find_surface(devices, id).shows(output) {
                ids.push(id);
            }
            i += 1;
        }
        assert(all@.take(i as int) =~= all@);
    }
    ids
}

/// The first of the places whose surface drives the output itself.
pub open spec fn first_driving(
    devices: Seq<Seq<SurfaceState>>,
    ids: Seq<SurfaceId>,
    output: u64,
) -> Option<SurfaceId>
    decreases ids.len(),
{
    if ids.len() == 0 {
        None
    } else if surface_at(devices, ids[0]).output == output {
        Some(ids[0])
    } else {
        first_driving(devices, ids.drop_first(), output)
    }
}

/// The surfaces of the devices, with the ramps given to each that shows the
/// output.
pub open spec fn with_gamma(
    devices: Seq<Seq<SurfaceState>>,
    output: u64,
    ramps: Option<RampValues>,
) -> Seq<Seq<SurfaceState>> {
    devices.map_values(
        |surfaces: Seq<SurfaceState>| surfaces.map_values(
            |surface: SurfaceState| surface.with_gamma(output, ramps),
        ),
    )
}

impl SurfaceState {
    /// The surface, given the ramps if it shows the output.
    pub open spec fn with_gamma(self, output: u64, ramps: Option<RampValues>) -> SurfaceState {
        if self.shows(output) {
            SurfaceState { gamma: ramps, ..self }
        } else {
            self
        }
    }
}

/// A copy of the ramps.
fn copy_ramps(ramps: &Option<GammaRamps>) -> (copy: Option<GammaRamps>)
    ensures
        ramp_values(copy) == ramp_values(*ramps),
{
    match ramps {
        Some(ramps) => {
            let red = ramps.0.clone();
            let green = ramps.1.clone();
            let blue = ramps.2.clone();
            assert(red@ =~= ramps.0@ && green@ =~= ramps.1@ && blue@ =~= ramps.2@);
            Some((red, green, blue))
        },
        None => None,
    }
}

impl Device {
    /// Gives the ramps to each surface of the device that shows the output.
    pub fn set_gamma(&mut self, output: u64, ramps: &Option<GammaRamps>)
        ensures
            final(self)@ == old(self)@.map_values(
                |surface: SurfaceState| surface.with_gamma(output, ramp_values(*ramps)),
            ),
    {
        let ghost before = self@;
        let mut s: usize = 0;
        while s < self.surfaces.len()
            invariant
                s <= self.surfaces.len(),
                self.surfaces@.len() == before.len(),
                forall|i: int|
                    0 <= i < s ==> (#[trigger] self.surfaces@[i])@ == before[i].with_gamma(
                        output,
                        ramp_values(*ramps),
                    ),
                forall|i: int|
                    s <= i < before.len() ==> (#[trigger] self.surfaces@[i])@ == before[i],
            decreases self.surfaces.len() - s,
        {
            if self.surfaces[s].shows(output) {
                let copy = copy_ramps(ramps);
                self.surfaces[s].gamma = copy;
            }
            s += 1;
        }
        assert(self@ =~= before.map_values(
            |surface: SurfaceState| surface.with_gamma(output, ramp_values(*ramps)),
        ));
    }
}

impl<G> State<G> {
    /// The state of the gamma control protocol.
    pub fn gamma_control_state(&mut self) -> (state: &mut GammaControlState<G>)
        ensures
            *state == old(self).gamma_control_state,
            final(self).gamma_control_state == *final(state),
            final(self).backend == old(self).backend,
    {
        &mut self.gamma_control_state
    }

    /// The size of an output's gamma tables: the length that `crtc_length` gives
    /// for the device and the display controller of its surface.
    pub fn gamma_size<F: Fn(usize, u32) -> Option<u32>>(
        &self,
        output: u64,
        crtc_length: &F,
    ) -> (size: Option<usize>)
        requires
            forall|device: usize, crtc: u32|
                device < self.backend@.len() ==> #[trigger] call_requires(
                    *crtc_length,
                    (device, crtc),
                ),
        ensures
            match first_driving(self.backend@, places(self.backend@), output) {
                None => size is None,
                Some(id) => exists|length: Option<u32>| #[trigger]
                    call_ensures(
                        *crtc_length,
                        (id.device, surface_at(self.backend@, id).crtc),
                        length,
                    ) && size == match length {
                        Some(length) => Some(length as usize),
                        None => None,
                    },
            },
    {
        let all = kms_surfaces(self);
        proof {
            lemma_backend_countable(&self.backend);
            assert(all@.skip(0) =~= all@);
        }
        if let BackendData::Kms(devices) = &self.backend {
            let mut i: usize = 0;
            while i < all.len()
                invariant
                    i <= all.len(),
                    all@ == places(self.backend@),
                    self.backend@ == device_states(devices@),
                    countable(self.backend@),
                    first_driving(self.backend@, all@, output) == first_driving(
                        self.backend@,
                        all@.skip(i as int),
                        output,
                    ),
                    forall|device: usize, crtc: u32|
                        device < self.backend@.len() ==> #[trigger] call_requires(
                            *crtc_length,
                            (device, crtc),
                        ),
                decreases all.len() - i,
            {
                let id = all[i];
                proof {
                    lemma_places_hold(self.backend@, i as int);
                    assert(all@.skip(i as int).drop_first() =~= all@.skip(i as int + 1));
                }
                let surface = find_surface(devices, id);
                if surface.output == output {
                    return match crtc_length(id.device, surface.crtc) {
                        Some(length) => Some(length as usize),
                        None => None,
                    };
                }
                i += 1;
            }
        }
        None
    }

    /// Apply gamma ramps to the output, or restore the original gamma tables if
    /// `ramps` is `None`, on each surface that shows it.
    pub fn set_gamma(&mut self, output: u64, ramps: Option<GammaRamps>)
        ensures
            final(self).backend@ == with_gamma(old(self).backend@, output, ramp_values(ramps)),
            final(self).backend is Kms == old(self).backend is Kms,
            final(self).gamma_control_state == old(self).gamma_control_state,
    {
        let ghost before = self.backend@;
        match &mut self.backend {
            BackendData::Kms(devices) => {
                let mut d: usize = 0;
                while d < devices.len()
                    invariant
                        d <= devices.len(),
                        devices@.len() == before.len(),
                        forall|i: int|
                            0 <= i < d ==> (#[trigger] devices@[i])@ == before[i].map_values(
                                |surface: SurfaceState| surface.with_gamma(
                                    output,
                                    ramp_values(ramps),
                                ),
                            ),
                        forall|i: int|
                            d <= i < before.len() ==> (#[trigger] devices@[i])@ == before[i],
                    decreases devices.len() - d,
                {
                    devices[d].set_gamma(output, &ramps);
                    d += 1;
                }
                assert(device_states(devices@) =~= with_gamma(before, output, ramp_values(ramps)));
            },
            BackendData::Other => {
                assert(with_gamma(before, output, ramp_values(ramps)) =~= Seq::empty());
            },
        }
    }
}

/// Setting the gamma of an output reaches every surface that shows it, and no
/// other one; surfaces stay where they are, and keep all but their gamma.
pub proof fn law_set_gamma_scope(
    devices: Seq<Seq<SurfaceState>>,
    output: u64,
    ramps: Option<RampValues>,
    id: SurfaceId,
)
    requires
        is_place(devices, id),
    ensures
        is_place(with_gamma(devices, output, ramps), id),
        surface_at(with_gamma(devices, output, ramps), id) == (SurfaceState {
            gamma: if surface_at(devices, id).shows(output) {
                ramps
            } else {
                surface_at(devices, id).gamma
            },
            ..surface_at(devices, id)
        }),
{
}

/// Of two settings of an output's gamma the later one counts.
pub proof fn law_set_gamma_replaces(
    devices: Seq<Seq<SurfaceState>>,
    output: u64,
    first: Option<RampValues>,
    second: Option<RampValues>,
)
    ensures
        with_gamma(with_gamma(devices, output, first), output, second) == with_gamma(
            devices,
            output,
            second,
        ),
{
    let once = with_gamma(devices, output, second);
    let twice = with_gamma(with_gamma(devices, output, first), output, second);
    assert forall|d: int| 0 <= d < devices.len() implies twice[d] == once[d] by {
        assert(twice[d] =~= once[d]);
    }
    assert(twice =~= once);
}

/// Restoring an output's gamma undoes what was set on surfaces that had the
/// original tables before.
pub proof fn law_restore_undoes_set(
    devices: Seq<Seq<SurfaceState>>,
    output: u64,
    ramps: Option<RampValues>,
)
    requires
        forall|id: SurfaceId|
            is_place(devices, id) && (#[trigger] surface_at(devices, id)).shows(output)
                ==> surface_at(devices, id).gamma is None,
        countable(devices),
    ensures
        with_gamma(with_gamma(devices, output, ramps), output, None) == devices,
{
    law_set_gamma_replaces(devices, output, ramps, None);
    let restored = with_gamma(devices, output, None);
    assert forall|d: int| 0 <= d < devices.len() implies restored[d] == devices[d] by {
        assert(devices[d].len() <= usize::MAX);
        assert forall|i: int| 0 <= i < devices[d].len() implies restored[d][i] == devices[d][i] by {
            let id = SurfaceId { device: d as usize, surface: i as usize };
            assert(surface_at(devices, id) == devices[d][i]);
        }
        assert(restored[d] =~= devices[d]);
    }
    assert(restored =~= devices);
}

/// Setting gamma does not change which surfaces show an output, nor the order in
/// which they are walked.
pub proof fn law_set_gamma_keeps_places(
    devices: Seq<Seq<SurfaceState>>,
    output: u64,
    ramps: Option<RampValues>,
)
    ensures
        places(with_gamma(devices, output, ramps)) == places(devices),
    decreases devices.len(),
{
    let after = with_gamma(devices, output, ramps);
    if devices.len() > 0 {
        law_set_gamma_keeps_places(devices.drop_last(), output, ramps);
        assert(after.drop_last() =~= with_gamma(devices.drop_last(), output, ramps));
        assert(after.last().len() == devices.last().len());
    }
}

/// The surfaces listed for an output are those that show it: all of them, and no
/// other one.
pub proof fn law_listed_surfaces(devices: Seq<Seq<SurfaceState>>, output: u64, id: SurfaceId)
    requires
        countable(devices),
    ensures
        places(devices).filter(|i: SurfaceId| surface_at(devices, i).shows(output)).contains(id)
            <==> is_place(devices, id) && surface_at(devices, id).shows(output),
{
    let wanted = |i: SurfaceId| surface_at(devices, i).shows(output);
    law_places_complete(devices);
    broadcast use vstd::seq_lib::group_filter_ensures;

    let listed = places(devices).filter(wanted);
    if listed.contains(id) {
        let k = choose|k: int| 0 <= k < listed.len() && listed[k] == id;
        assert(wanted(listed[k]));
        places(devices).lemma_filter_contains_rev(wanted, id);
    }
    if is_place(devices, id) && surface_at(devices, id).shows(output) {
        assert(places(devices).contains(id));
        let k = choose|k: int| 0 <= k < places(devices).len() && places(devices)[k] == id;
        assert(wanted(places(devices)[k]));
        assert(listed.contains(places(devices)[k]));
    }
}

/// A surface shows the output that it drives, and the one that this output
/// mirrors, and no other one.
pub proof fn law_shows(surface: SurfaceState, output: u64)
    ensures
        surface.shows(output) <==> surface.output == output || (surface.mirroring is Some
            && surface.mirroring->0 == output),
{
}

/// What a surface is: its own output, mirrored output and controller, and the
/// values of the ramps that it has been given.
pub proof fn law_surface_state(surface: Surface)
    ensures
        surface@.output == surface.output,
        surface@.mirroring == surface.mirroring,
        surface@.crtc == surface.crtc,
        surface@.gamma is Some <==> surface.gamma is Some,
        surface.gamma matches Some(ramps) ==> surface@.gamma == Some(
            (ramps.0@, ramps.1@, ramps.2@),
        ),
{
}

/// What a backend holds: without mode setting nothing, and with it the surfaces of
/// each device, in order.
pub proof fn law_backend_state(backend: BackendData, d: int, s: int)
    ensures
        backend is Other ==> backend@.len() == 0,
        backend matches BackendData::Kms(devices) ==> {
            &&& backend@.len() == devices@.len()
            &&& 0 <= d < devices@.len() ==> backend@[d].len() == devices@[d].surfaces@.len()
            &&& 0 <= d < devices@.len() && 0 <= s < devices@[d].surfaces@.len() ==> backend@[d][s]
                == devices@[d].surfaces@[s]@
        },
{
}

/// The values of ramps are those of the red, the green and the blue ramp.
pub proof fn law_ramp_values(ramps: Option<GammaRamps>)
    ensures
        ramps is None <==> ramp_values(ramps) is None,
        ramps matches Some(r) ==> ramp_values(ramps) == Some((r.0@, r.1@, r.2@)),
{
}

/// Surfaces are walked device by device, and on each device in order: the list of
/// places holds every place where a surface is, and a place on an earlier device,
/// or earlier on the same one, comes before a later one.
pub proof fn law_places_ordered(devices: Seq<Seq<SurfaceState>>)
    requires
        devices.len() <= usize::MAX,
        forall|d: int| 0 <= d < devices.len() ==> #[trigger] devices[d].len() <= usize::MAX,
    ensures
        forall|id: SurfaceId| #[trigger]
            places(devices).contains(id) <==> id.device < devices.len() && id.surface
                < devices[id.device as int].len(),
        forall|i: int, j: int|
            0 <= i < j < places(devices).len() ==> (#[trigger] places(devices)[i]).device < (
            #[trigger] places(devices)[j]).device || (places(devices)[i].device == places(
                devices,
            )[j].device && places(devices)[i].surface < places(devices)[j].surface),
    decreases devices.len(),
{
    law_places_complete(devices);
    assert forall|id: SurfaceId| #[trigger] places(devices).contains(id) <==> id.device
        < devices.len() && id.surface < devices[id.device as int].len() by {
        assert(is_place(devices, id) <==> places(devices).contains(id));
    }
    if devices.len() > 0 {
        let rest = devices.drop_last();
        let last = device_places(devices.len() - 1, devices.last().len());
        assert forall|d: int| 0 <= d < rest.len() implies #[trigger] rest[d].len()
            <= usize::MAX by {
            assert(rest[d] == devices[d]);
        }
        assert(devices[devices.len() - 1].len() <= usize::MAX);
        law_places_ordered(rest);
        assert forall|i: int, j: int| 0 <= i < j < places(devices).len() implies (
        #[trigger] places(devices)[i]).device < (#[trigger] places(devices)[j]).device || (places(
            devices,
        )[i].device == places(devices)[j].device && places(devices)[i].surface < places(
            devices,
        )[j].surface) by {
            let n = places(rest).len();
            if j < n {
                assert(places(devices)[i] == places(rest)[i]);
                assert(places(devices)[j] == places(rest)[j]);
            } else {
                assert(places(devices)[j] == last[j - n]);
                if i < n {
                    lemma_places_hold(rest, i);
                    assert(places(devices)[i] == places(rest)[i]);
                } else {
                    assert(places(devices)[i] == last[i - n]);
                }
            }
        }
    }
}

/// The first of the places that drive the output is one of them, it drives the
/// output itself, and none before it does; there is none only where none of the
/// places drives it.
pub proof fn law_first_driving(
    devices: Seq<Seq<SurfaceState>>,
    ids: Seq<SurfaceId>,
    output: u64,
)
    ensures
        match first_driving(devices, ids, output) {
            Some(id) => exists|k: int|
                {
                    &&& 0 <= k < ids.len()
                    &&& #[trigger] ids[k] == id
                    &&& devices[id.device as int][id.surface as int].output == output
                    &&& forall|j: int|
                        0 <= j < k ==> devices[(#[trigger] ids[j]).device as int][ids[j].surface as int].output
                            != output
                },
            None => forall|j: int|
                0 <= j < ids.len() ==> devices[(#[trigger] ids[j]).device as int][ids[j].surface as int].output
                    != output,
        },
    decreases ids.len(),
{
    if ids.len() > 0 && surface_at(devices, ids[0]).output != output {
        let rest = ids.drop_first();
        law_first_driving(devices, rest, output);
        match first_driving(devices, rest, output) {
            Some(id) => {
                let k = choose|k: int|
                    {
                        &&& 0 <= k < rest.len()
                        &&& #[trigger] rest[k] == id
                        &&& devices[id.device as int][id.surface as int].output == output
                        &&& forall|j: int|
                            0 <= j < k ==> devices[(
                            #[trigger] rest[j]).device as int][rest[j].surface as int].output
                                != output
                    };
                assert(ids[k + 1] == id);
                assert forall|j: int| 0 <= j < k + 1 implies devices[(
                #[trigger] ids[j]).device as int][ids[j].surface as int].output != output by {
                    if j > 0 {
                        assert(rest[j - 1] == ids[j]);
                    }
                }
            },
            None => {
                assert forall|j: int| 0 <= j < ids.len() implies devices[(
                #[trigger] ids[j]).device as int][ids[j].surface as int].output != output by {
                    if j > 0 {
                        assert(rest[j - 1] == ids[j]);
                    }
                }
            },
        }
    }
}

/// The surface whose tables count for an output is on the first device on which
/// one drives it, and is the first there that does; without such a surface there
/// are no tables.
pub proof fn law_sized_surface(
    devices: Seq<Seq<SurfaceState>>,
    output: u64,
    d: int,
    s: int,
)
    requires
        devices.len() <= usize::MAX,
        forall|e: int| 0 <= e < devices.len() ==> #[trigger] devices[e].len() <= usize::MAX,
        0 <= d < devices.len(),
        0 <= s < devices[d].len(),
        devices[d][s].output == output,
    ensures
        first_driving(devices, places(devices), output) matches Some(id) && {
            &&& id.device < devices.len()
            &&& id.surface < devices[id.device as int].len()
            &&& devices[id.device as int][id.surface as int].output == output
            &&& id.device < d || (id.device == d && id.surface <= s)
        },
{
    let ids = places(devices);
    let id = SurfaceId { device: d as usize, surface: s as usize };
    law_places_ordered(devices);
    law_first_driving(devices, ids, output);
    assert(devices[d].len() <= usize::MAX);
    assert(ids.contains(id));
    let j = choose|j: int| 0 <= j < ids.len() && ids[j] == id;
    assert(devices[ids[j].device as int][ids[j].surface as int].output == output);
    let first = first_driving(devices, ids, output)->0;
    assert(ids.contains(first));
}

/// Setting the gamma of an output gives the ramps to each surface that drives the
/// output or drives one that mirrors it, and changes nothing else anywhere.
pub proof fn law_set_gamma_reaches(
    devices: Seq<Seq<SurfaceState>>,
    output: u64,
    ramps: Option<RampValues>,
    d: int,
    s: int,
)
    requires
        0 <= d < devices.len(),
        0 <= s < devices[d].len(),
    ensures
        ({
            let after = with_gamma(devices, output, ramps);
            &&& after.len() == devices.len()
            &&& after[d].len() == devices[d].len()
            &&& after[d][s].output == devices[d][s].output
            &&& after[d][s].mirroring == devices[d][s].mirroring
            &&& after[d][s].crtc == devices[d][s].crtc
            &&& devices[d][s].output == output || devices[d][s].mirroring == Some(output)
                ==> after[d][s].gamma == ramps
            &&& devices[d][s].output != output && devices[d][s].mirroring != Some(output)
                ==> after[d][s].gamma == devices[d][s].gamma
        }),
{
}

/// The same of the surfaces of one device: each is given the ramps if it drives
/// the output or drives one that mirrors it, and keeps everything else.
pub proof fn law_surface_given_gamma(
    surface: SurfaceState,
    output: u64,
    ramps: Option<RampValues>,
)
    ensures
        surface.with_gamma(output, ramps).output == surface.output,
        surface.with_gamma(output, ramps).mirroring == surface.mirroring,
        surface.with_gamma(output, ramps).crtc == surface.crtc,
        surface.with_gamma(output, ramps).gamma == if surface.output == output
            || surface.mirroring == Some(output) {
            ramps
        } else {
            surface.gamma
        },
{
}

/// The surface at a place is the one that its device has there.
pub proof fn law_surface_at(devices: Seq<Seq<SurfaceState>>, id: SurfaceId)
    ensures
        surface_at(devices, id) == devices[id.device as int][id.surface as int],
{
}

/// What a device holds: its surfaces, in order.
pub proof fn law_device_state(device: Device, s: int)
    ensures
        device@.len() == device.surfaces@.len(),
        0 <= s < device.surfaces@.len() ==> device@[s] == device.surfaces@[s]@,
{
}

} // verus!
