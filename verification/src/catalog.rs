//! The GPU catalog: GPU types, their VRAM and where they can be rented at
//! what price, and the choice of the cheapest GPU that fits a model.
//!
//! Prices are whole numbers of picodollars (10^-12 USD); VRAM needs are
//! whole numbers of megabytes (10^-3 GB).
use vstd::prelude::*;

use crate::provider::ProviderKind;

verus! {

/// Largest price per second (in picodollars) the catalog accepts: the
/// price of 255 GPUs for an hour then still fits in a `u64`.
pub const MAX_PRICE_PER_SEC: u64 = 20_094_492_455_021;

/// A place a GPU type can be rented.
#[derive(Debug, Clone)]
pub struct GpuAvailability {
    pub provider: String,
    pub provider_gpu_id: String,
    /// Picodollars per second for one GPU.
    pub price_per_sec: u64,
    pub regions: Vec<String>,
}

/// A GPU type of the catalog.
#[derive(Debug, Clone)]
pub struct GpuEntry {
    pub id: String,
    pub name: String,
    pub vram_gb: u32,
    pub architecture: String,
    pub availability: Vec<GpuAvailability>,
}

/// All known GPU types.
#[derive(Debug, Clone)]
pub struct GpuCatalog {
    pub gpu: Vec<GpuEntry>,
}

/// A chosen GPU type on a provider. Prices are in picodollars and cover
/// all GPUs of the deployment.
#[derive(Debug, Clone)]
pub struct GpuSelection {
    pub gpu_id: String,
    pub gpu_name: String,
    pub vram_gb: u32,
    pub provider: ProviderKind,
    pub provider_gpu_id: String,
    pub price_per_sec: u64,
    pub price_per_hour: u64,
}

/// Why no GPU could be chosen.
#[derive(Debug)]
pub enum CatalogError {
    /// The catalog text could not be read; the parser's message.
    Parse(String),
    /// No GPU of the catalog satisfies the request.
    NoSuitableGpu { vram_needed_mgb: u64, provider_filter: Option<ProviderKind> },
}

impl CatalogError {
    pub open spec fn spec_message(&self) -> Seq<char> {
        match self {
            CatalogError::Parse(m) => "failed to parse GPU catalog: "@ + m@,
            CatalogError::NoSuitableGpu { vram_needed_mgb, provider_filter } => "no GPU found with >= "@
                + gb_tenths_text(*vram_needed_mgb as nat) + " GB VRAM"@ + match provider_filter {
                Some(p) => " on "@ + p.spec_name(),
                None => Seq::empty(),
            },
        }
    }

    /// The error message; the VRAM need is given in GB to one decimal.
    pub fn to_string(&self) -> (r: String)
        ensures
            r@ == self.spec_message(),
    {
        match self {
            CatalogError::Parse(m) => crate::text::concat2("failed to parse GPU catalog: ", m.as_str()),
            CatalogError::NoSuitableGpu { vram_needed_mgb, provider_filter } => {
                let gb = format_gb_tenths(*vram_needed_mgb);
                let mut r = crate::text::concat3("no GPU found with >= ", gb.as_str(), " GB VRAM");
                match provider_filter {
                    Some(p) => {
                        r.append(" on ");
                        let n = p.to_string();
                        r.append(n.as_str());
                    },
                    None => {},
                }
                r
            },
        }
    }
}

/// Megabytes as GB with one decimal, rounded half up.
pub open spec fn gb_tenths_text(mgb: nat) -> Seq<char> {
    let tenths = (mgb + 50) / 100;
    crate::text::decimal(tenths / 10) + seq!['.'] + crate::text::decimal(tenths % 10)
}

fn format_gb_tenths(mgb: u64) -> (r: String)
    ensures
        r@ == gb_tenths_text(mgb as nat),
{
    let tenths: u64 = mgb / 100 + if mgb % 100 >= 50 { 1 } else { 0 };
    assert(tenths == (mgb + 50) / 100) by (nonlinear_arith)
        requires
            tenths == mgb / 100 + if mgb % 100 >= 50 { 1int } else { 0int },
    ;
    let mut r = crate::text::u64_to_string(tenths / 10);
    crate::text::push_char(&mut r, '.');
    let d = crate::text::u64_to_string(tenths % 10);
    r.append(d.as_str());
    r
}

/// The selection `a` makes of `g` on provider `p`, at a total price per
/// second.
pub open spec fn selection_of(
    g: GpuEntry,
    a: GpuAvailability,
    p: ProviderKind,
    price_per_sec: int,
) -> GpuSelection {
    GpuSelection {
        gpu_id: g.id,
        gpu_name: g.name,
        vram_gb: g.vram_gb,
        provider: p,
        provider_gpu_id: a.provider_gpu_id,
        price_per_sec: price_per_sec as u64,
        price_per_hour: (price_per_sec * 3600) as u64,
    }
}

/// The offer that availability `a` of GPU `g` makes for a deployment on
/// `gpu_count` GPUs needing `vram_needed_mgb` in all: none when the GPUs
/// are too small, the provider is unknown or filtered out, or the hourly
/// price is above the cap.
pub open spec fn candidate(
    g: GpuEntry,
    a: GpuAvailability,
    vram_needed_mgb: u64,
    provider_filter: Option<ProviderKind>,
    max_price_per_hour: Option<u64>,
    gpu_count: u8,
) -> Option<GpuSelection> {
    if gpu_count == 0 || (g.vram_gb as int) * 1000 * (gpu_count as int) < vram_needed_mgb {
        None
    } else {
        match ProviderKind::spec_from_catalog_name(a.provider@) {
            None => None,
            Some(p) => {
                let total = (a.price_per_sec as int) * (gpu_count as int);
                if provider_filter is Some && provider_filter->0 != p {
                    None
                } else if max_price_per_hour is Some && total * 3600 > max_price_per_hour->0 {
                    None
                } else {
                    Some(selection_of(g, a, p, total))
                }
            },
        }
    }
}

/// Position (i2, j2) comes before (i, j) in catalog order.
pub open spec fn before(i2: int, j2: int, i: int, j: int) -> bool {
    i2 < i || (i2 == i && j2 < j)
}

/// What any GPU chosen for a request must be: on `gpu_count` GPUs of a
/// type and provider the catalog lists, the GPUs together holding the VRAM
/// needed, on the requested provider, priced for all the GPUs (one GPU's
/// price per second times `gpu_count`, and an hour of that), and within
/// the hourly price cap.
pub open spec fn meets_request(
    cat: GpuCatalog,
    sel: GpuSelection,
    vram_needed_mgb: u64,
    provider_filter: Option<ProviderKind>,
    max_price_per_hour: Option<u64>,
    gpu_count: u8,
) -> bool {
    &&& gpu_count > 0
    &&& (sel.vram_gb as int) * 1000 * (gpu_count as int) >= vram_needed_mgb
    &&& provider_filter matches Some(p) ==> sel.provider == p
    &&& max_price_per_hour matches Some(m) ==> sel.price_per_hour <= m
    &&& sel.price_per_hour == (sel.price_per_sec as int) * 3600
    &&& exists|i: int, j: int|
        {
            &&& #[trigger] cat.valid_pos(i, j)
            &&& cat.gpu@[i].id == sel.gpu_id
            &&& cat.gpu@[i].name == sel.gpu_name
            &&& cat.gpu@[i].vram_gb == sel.vram_gb
            &&& cat.gpu@[i].availability@[j].provider_gpu_id == sel.provider_gpu_id
            &&& ProviderKind::spec_from_catalog_name(cat.gpu@[i].availability@[j].provider@) == Some(sel.provider)
            &&& (cat.gpu@[i].availability@[j].price_per_sec as int) * (gpu_count as int) == sel.price_per_sec
        }
}

/// Whatever GPU is chosen for a request meets it (see `meets_request`):
/// in particular, under a price cap the hourly price of all its GPUs
/// together is at most the cap.
pub proof fn law_selection_meets_request(
    cat: GpuCatalog,
    sel: GpuSelection,
    vram_needed_mgb: u64,
    provider_filter: Option<ProviderKind>,
    max_price_per_hour: Option<u64>,
    gpu_count: u8,
)
    requires
        cat.prices_in_range(),
        cat.is_cheapest_offer(sel, vram_needed_mgb, provider_filter, max_price_per_hour, gpu_count),
    ensures
        meets_request(cat, sel, vram_needed_mgb, provider_filter, max_price_per_hour, gpu_count),
{
    let (i, j) = choose|i: int, j: int|
        {
            &&& #[trigger] cat.valid_pos(i, j)
            &&& cat.offer(i, j, vram_needed_mgb, provider_filter, max_price_per_hour, gpu_count) == Some(sel)
            &&& forall|i2: int, j2: int|
                #![trigger cat.offer(i2, j2, vram_needed_mgb, provider_filter, max_price_per_hour, gpu_count)]
                cat.valid_pos(i2, j2) && cat.offer(
                    i2,
                    j2,
                    vram_needed_mgb,
                    provider_filter,
                    max_price_per_hour,
                    gpu_count,
                ) is Some ==> {
                    let o = cat.offer(
                        i2,
                        j2,
                        vram_needed_mgb,
                        provider_filter,
                        max_price_per_hour,
                        gpu_count,
                    )->0;
                    &&& o.price_per_sec >= sel.price_per_sec
                    &&& before(i2, j2, i, j) ==> o.price_per_sec > sel.price_per_sec
                }
        };
    let a = cat.gpu@[i].availability@[j];
    assert(a.price_per_sec <= MAX_PRICE_PER_SEC);
    let total = (a.price_per_sec as int) * (gpu_count as int);
    assert(0 <= total && total * 3600 <= u64::MAX) by (nonlinear_arith)
        requires
            a.price_per_sec <= MAX_PRICE_PER_SEC,
            gpu_count <= 255,
            total == (a.price_per_sec as int) * (gpu_count as int),
    ;
    assert(sel.price_per_sec == total);
    assert(sel.price_per_hour == total * 3600);
}

/// Entry `j` of GPU `i` can serve a request: on a known provider, the
/// requested one if any; `gpu_count` (at least one) of its GPUs hold the
/// VRAM needed together; and the hour of all of them costs at most the cap.
pub open spec fn can_serve(
    cat: GpuCatalog,
    i: int,
    j: int,
    vram_needed_mgb: u64,
    provider_filter: Option<ProviderKind>,
    max_price_per_hour: Option<u64>,
    gpu_count: u8,
) -> bool {
    let g = cat.gpu@[i];
    let a = g.availability@[j];
    &&& cat.valid_pos(i, j)
    &&& gpu_count > 0
    &&& (g.vram_gb as int) * 1000 * (gpu_count as int) >= vram_needed_mgb
    &&& ProviderKind::spec_from_catalog_name(a.provider@) is Some
    &&& provider_filter matches Some(p) ==> ProviderKind::spec_from_catalog_name(a.provider@) == Some(p)
    &&& max_price_per_hour matches Some(m) ==> (a.price_per_sec as int) * (gpu_count as int) * 3600 <= m
}

/// Every catalog entry that can serve a request is offered, and nothing
/// chosen costs more than it: a selection's price for all its GPUs is at
/// most that of any entry that can serve the request; and where the
/// catalog has no offer, no entry can serve it.
pub proof fn law_no_servable_entry_is_cheaper(
    cat: GpuCatalog,
    sel: Option<GpuSelection>,
    i: int,
    j: int,
    vram_needed_mgb: u64,
    provider_filter: Option<ProviderKind>,
    max_price_per_hour: Option<u64>,
    gpu_count: u8,
)
    requires
        cat.prices_in_range(),
        match sel {
            Some(s) => cat.is_cheapest_offer(s, vram_needed_mgb, provider_filter, max_price_per_hour, gpu_count),
            None => cat.has_no_offer(vram_needed_mgb, provider_filter, max_price_per_hour, gpu_count),
        },
        can_serve(cat, i, j, vram_needed_mgb, provider_filter, max_price_per_hour, gpu_count),
    ensures
        sel matches Some(s) && (s.price_per_sec as int) <= (cat.gpu@[i].availability@[j].price_per_sec as int)
            * (gpu_count as int),
{
    let a = cat.gpu@[i].availability@[j];
    assert(a.price_per_sec <= MAX_PRICE_PER_SEC);
    let total = (a.price_per_sec as int) * (gpu_count as int);
    assert(0 <= total && total * 3600 <= u64::MAX) by (nonlinear_arith)
        requires
            a.price_per_sec <= MAX_PRICE_PER_SEC,
            gpu_count <= 255,
            total == (a.price_per_sec as int) * (gpu_count as int),
    ;
    let o = cat.offer(i, j, vram_needed_mgb, provider_filter, max_price_per_hour, gpu_count);
    assert(o is Some);
    assert(o->0.price_per_sec == total);
}

impl GpuCatalog {
    /// Every price is at most `MAX_PRICE_PER_SEC`.
    pub open spec fn prices_in_range(&self) -> bool {
        forall|i: int, j: int|
            0 <= i < self.gpu@.len() && 0 <= j < self.gpu@[i].availability@.len()
                ==> #[trigger] self.gpu@[i].availability@[j].price_per_sec <= MAX_PRICE_PER_SEC
    }

    pub open spec fn valid_pos(&self, i: int, j: int) -> bool {
        0 <= i < self.gpu@.len() && 0 <= j < self.gpu@[i].availability@.len()
    }

    pub open spec fn offer(
        &self,
        i: int,
        j: int,
        vram_needed_mgb: u64,
        provider_filter: Option<ProviderKind>,
        max_price_per_hour: Option<u64>,
        gpu_count: u8,
    ) -> Option<GpuSelection> {
        candidate(
            self.gpu@[i],
            self.gpu@[i].availability@[j],
            vram_needed_mgb,
            provider_filter,
            max_price_per_hour,
            gpu_count,
        )
    }

    /// `sel` is an offer of the catalog for the request, and no offer is
    /// cheaper; no offer before it in catalog order is as cheap.
    pub open spec fn is_cheapest_offer(
        &self,
        sel: GpuSelection,
        vram_needed_mgb: u64,
        provider_filter: Option<ProviderKind>,
        max_price_per_hour: Option<u64>,
        gpu_count: u8,
    ) -> bool {
        exists|i: int, j: int|
                    {
                        &&& #[trigger] self.valid_pos(i, j)
                        &&& self.offer(
                            i,
                            j,
                            vram_needed_mgb,
                            provider_filter,
                            max_price_per_hour,
                            gpu_count,
                        ) == Some(sel)
                        &&& forall|i2: int, j2: int|
                            #![trigger self.offer(i2, j2, vram_needed_mgb, provider_filter, max_price_per_hour, gpu_count)]
                            self.valid_pos(i2, j2) && self.offer(
                                i2,
                                j2,
                                vram_needed_mgb,
                                provider_filter,
                                max_price_per_hour,
                                gpu_count,
                            ) is Some ==> {
                                let o = self.offer(
                                    i2,
                                    j2,
                                    vram_needed_mgb,
                                    provider_filter,
                                    max_price_per_hour,
                                    gpu_count,
                                )->0;
                                &&& o.price_per_sec >= sel.price_per_sec
                                &&& before(i2, j2, i, j) ==> o.price_per_sec > sel.price_per_sec
                            }
                    }
    }

    /// No entry of the catalog makes an offer for the request.
    pub open spec fn has_no_offer(
        &self,
        vram_needed_mgb: u64,
        provider_filter: Option<ProviderKind>,
        max_price_per_hour: Option<u64>,
        gpu_count: u8,
    ) -> bool {
        forall|i: int, j: int|
                        #![trigger self.offer(i, j, vram_needed_mgb, provider_filter, max_price_per_hour, gpu_count)]
                        self.valid_pos(i, j) ==> self.offer(
                            i,
                            j,
                            vram_needed_mgb,
                            provider_filter,
                            max_price_per_hour,
                            gpu_count,
                        ) is None
    }

    /// Select the cheapest GPU offer that has enough VRAM: the GPUs'
    /// VRAM times `gpu_count` must cover `vram_needed_mgb`; optionally only
    /// on one provider and at most `max_price_per_hour` for all GPUs.
    /// Among offers of equal price the first in catalog order is taken.
    /// Prices of the selection are for all `gpu_count` GPUs.
    pub fn select_cheapest(
        &self,
        vram_needed_mgb: u64,
        provider_filter: Option<ProviderKind>,
        max_price_per_hour: Option<u64>,
        gpu_count: u8,
    ) -> (r: Result<GpuSelection, CatalogError>)
        requires
            self.prices_in_range(),
        ensures
            match r {
                Ok(sel) => self.is_cheapest_offer(
                    sel,
                    vram_needed_mgb,
                    provider_filter,
                    max_price_per_hour,
                    gpu_count,
                ),
                Err(e) => {
                    &&& e == CatalogError::NoSuitableGpu { vram_needed_mgb, provider_filter }
                    &&& self.has_no_offer(vram_needed_mgb, provider_filter, max_price_per_hour, gpu_count)
                },
            },
            r matches Ok(sel) ==> meets_request(
                *self,
                sel,
                vram_needed_mgb,
                provider_filter,
                max_price_per_hour,
                gpu_count,
            ),
            forall|i: int, j: int|
                #[trigger] can_serve(*self, i, j, vram_needed_mgb, provider_filter, max_price_per_hour, gpu_count)
                    ==> (r matches Ok(sel) && (sel.price_per_sec as int) <= (
                    self.gpu@[i].availability@[j].price_per_sec as int) * (gpu_count as int)),
    {
        let mut best: Option<GpuSelection> = None;
        let ghost mut bi: int = 0;
        let ghost mut bj: int = 0;
        let mut i: usize = 0;
        while i < self.gpu.len()
            invariant
                self.prices_in_range(),
                i <= self.gpu@.len(),
                best is None ==> forall|i2: int, j2: int|
                    #![trigger self.offer(i2, j2, vram_needed_mgb, provider_filter, max_price_per_hour, gpu_count)]
                    self.valid_pos(i2, j2) && i2 < i ==> self.offer(
                        i2,
                        j2,
                        vram_needed_mgb,
                        provider_filter,
                        max_price_per_hour,
                        gpu_count,
                    ) is None,
                best matches Some(b) ==> {
                    &&& self.valid_pos(bi, bj)
                    &&& bi < i
                    &&& self.offer(
                        bi,
                        bj,
                        vram_needed_mgb,
                        provider_filter,
                        max_price_per_hour,
                        gpu_count,
                    ) == Some(b)
                    &&& forall|i2: int, j2: int|
                        #![trigger self.offer(i2, j2, vram_needed_mgb, provider_filter, max_price_per_hour, gpu_count)]
                        self.valid_pos(i2, j2) && i2 < i && self.offer(
                            i2,
                            j2,
                            vram_needed_mgb,
                            provider_filter,
                            max_price_per_hour,
                            gpu_count,
                        ) is Some ==> {
                            let o = self.offer(
                                i2,
                                j2,
                                vram_needed_mgb,
                                provider_filter,
                                max_price_per_hour,
                                gpu_count,
                            )->0;
                            &&& o.price_per_sec >= b.price_per_sec
                            &&& before(i2, j2, bi, bj) ==> o.price_per_sec > b.price_per_sec
                        }
                },
            decreases self.gpu@.len() - i,
        {
            let g = &self.gpu[i];
            let mut j: usize = 0;
            while j < g.availability.len()
                invariant
                    self.prices_in_range(),
                    i < self.gpu@.len(),
                    *g == self.gpu@[i as int],
                    j <= g.availability@.len(),
                    best is None ==> forall|i2: int, j2: int|
                        #![trigger self.offer(i2, j2, vram_needed_mgb, provider_filter, max_price_per_hour, gpu_count)]
                        self.valid_pos(i2, j2) && before(i2, j2, i as int, j as int) ==> self.offer(
                            i2,
                            j2,
                            vram_needed_mgb,
                            provider_filter,
                            max_price_per_hour,
                            gpu_count,
                        ) is None,
                    best matches Some(b) ==> {
                        &&& self.valid_pos(bi, bj)
                        &&& before(bi, bj, i as int, j as int)
                        &&& self.offer(
                            bi,
                            bj,
                            vram_needed_mgb,
                            provider_filter,
                            max_price_per_hour,
                            gpu_count,
                        ) == Some(b)
                        &&& forall|i2: int, j2: int|
                            #![trigger self.offer(i2, j2, vram_needed_mgb, provider_filter, max_price_per_hour, gpu_count)]
                            self.valid_pos(i2, j2) && before(i2, j2, i as int, j as int)
                                && self.offer(
                                i2,
                                j2,
                                vram_needed_mgb,
                                provider_filter,
                                max_price_per_hour,
                                gpu_count,
                            ) is Some ==> {
                                let o = self.offer(
                                    i2,
                                    j2,
                                    vram_needed_mgb,
                                    provider_filter,
                                    max_price_per_hour,
                                    gpu_count,
                                )->0;
                                &&& o.price_per_sec >= b.price_per_sec
                                &&& before(i2, j2, bi, bj) ==> o.price_per_sec > b.price_per_sec
                            }
                    },
                decreases g.availability@.len() - j,
            {
                let a = &g.availability[j];
                assert(self.gpu@[i as int].availability@[j as int] == *a);
                assert(self.valid_pos(i as int, j as int));
                let c = offer_of(g, a, vram_needed_mgb, provider_filter, max_price_per_hour, gpu_count);
                match c {
                    Some(sel) => {
                        let better = match &best {
                            None => true,
                            Some(b) => sel.price_per_sec < b.price_per_sec,
                        };
                        if better {
                            best = Some(sel);
                            proof {
                                bi = i as int;
                                bj = j as int;
                            }
                        }
                    },
                    None => {},
                }
                j = j + 1;
            }
            i = i + 1;
        }
        let r = match best {
            Some(b) => Ok(b),
            None => Err(CatalogError::NoSuitableGpu { vram_needed_mgb, provider_filter }),
        };
        proof {
            if r is Ok {
                let sel = r->Ok_0;
                assert(self.is_cheapest_offer(
                    sel,
                    vram_needed_mgb,
                    provider_filter,
                    max_price_per_hour,
                    gpu_count,
                ));
                law_selection_meets_request(
                    *self,
                    sel,
                    vram_needed_mgb,
                    provider_filter,
                    max_price_per_hour,
                    gpu_count,
                );
            }
            let found: Option<GpuSelection> = if r is Ok {
                Some(r->Ok_0)
            } else {
                None
            };
            assert forall|i: int, j: int|
                #[trigger] can_serve(*self, i, j, vram_needed_mgb, provider_filter, max_price_per_hour, gpu_count)
                    implies (r matches Ok(sel) && (sel.price_per_sec as int) <= (
                    self.gpu@[i].availability@[j].price_per_sec as int) * (gpu_count as int)) by {
                law_no_servable_entry_is_cheaper(
                    *self,
                    found,
                    i,
                    j,
                    vram_needed_mgb,
                    provider_filter,
                    max_price_per_hour,
                    gpu_count,
                );
            }
        }
        r
    }

    /// `sel` is the first GPU with the id, on its first entry of the
    /// provider, at the price of one GPU.
    pub open spec fn is_found_gpu(&self, sel: GpuSelection, gpu_id: Seq<char>, provider: ProviderKind) -> bool {
        exists|i: int, j: int|
                    {
                        &&& #[trigger] self.valid_pos(i, j)
                        &&& self.first_with_id(i, gpu_id)
                        &&& self.first_on_provider(i, j, provider)
                        &&& sel == selection_of(
                            self.gpu@[i],
                            self.gpu@[i].availability@[j],
                            provider,
                            self.gpu@[i].availability@[j].price_per_sec as int,
                        )
                    }
    }

    /// No GPU has the id, or the first that has it is not offered by the
    /// provider.
    pub open spec fn no_gpu_found(&self, gpu_id: Seq<char>, provider: ProviderKind) -> bool {
        forall|i: int|
                    #![trigger self.first_with_id(i, gpu_id)]
                    self.first_with_id(i, gpu_id) ==> forall|j: int|
                        0 <= j < self.gpu@[i].availability@.len() ==> (
                        #[trigger] self.gpu@[i].availability@[j]).provider@
                            != provider.spec_catalog_name()
    }

    /// The first GPU of the catalog with the given id, on the first
    /// availability entry of the given provider, at the price of one GPU.
    /// `None` when no GPU has the id or the first one with it is not
    /// offered by the provider.
    pub fn find_gpu(&self, gpu_id: &str, provider: ProviderKind) -> (r: Option<GpuSelection>)
        requires
            self.prices_in_range(),
        ensures
            match r {
                Some(sel) => self.is_found_gpu(sel, gpu_id@, provider),
                None => self.no_gpu_found(gpu_id@, provider),
            },
    {
        let pname = provider.catalog_name();
        let mut i: usize = 0;
        while i < self.gpu.len()
            invariant
                self.prices_in_range(),
                pname@ == provider.spec_catalog_name(),
                i <= self.gpu@.len(),
                forall|i2: int| 0 <= i2 < i ==> (#[trigger] self.gpu@[i2]).id@ != gpu_id@,
            decreases self.gpu@.len() - i,
        {
            let g = &self.gpu[i];
            if crate::text::str_eq(g.id.as_str(), gpu_id) {
                assert(self.first_with_id(i as int, gpu_id@));
                let mut j: usize = 0;
                while j < g.availability.len()
                    invariant
                        self.prices_in_range(),
                        pname@ == provider.spec_catalog_name(),
                        i < self.gpu@.len(),
                        self.first_with_id(i as int, gpu_id@),
                        *g == self.gpu@[i as int],
                        j <= g.availability@.len(),
                        forall|j2: int| 0 <= j2 < j ==> (#[trigger] g.availability@[j2]).provider@ != pname@,
                    decreases g.availability@.len() - j,
                {
                    let a = &g.availability[j];
                    assert(self.gpu@[i as int].availability@[j as int] == *a);
                    if crate::text::str_eq(a.provider.as_str(), pname) {
                        proof {
                            assert(self.valid_pos(i as int, j as int));
                            assert(self.first_on_provider(i as int, j as int, provider));
                            assert(a.price_per_sec <= MAX_PRICE_PER_SEC);
                        }
                        let sel = GpuSelection {
                            gpu_id: g.id.clone(),
                            gpu_name: g.name.clone(),
                            vram_gb: g.vram_gb,
                            provider,
                            provider_gpu_id: a.provider_gpu_id.clone(),
                            price_per_sec: a.price_per_sec,
                            price_per_hour: a.price_per_sec * 3600,
                        };
                        assert(sel == selection_of(
                            self.gpu@[i as int],
                            self.gpu@[i as int].availability@[j as int],
                            provider,
                            self.gpu@[i as int].availability@[j as int].price_per_sec as int,
                        ));
                        return Some(sel);
                    }
                    j = j + 1;
                }
                proof {
                    assert forall|i3: int| #[trigger] self.first_with_id(i3, gpu_id@) implies i3 == i by {
                        if i3 < i {
                            assert(self.gpu@[i3].id@ != gpu_id@);
                        } else if i3 > i {
                            assert(self.gpu@[i as int].id@ == gpu_id@);
                        }
                    }
                }
                return None;
            }
            i = i + 1;
        }
        None
    }

    /// GPU `i` is the first with id `id`.
    pub open spec fn first_with_id(&self, i: int, id: Seq<char>) -> bool {
        &&& 0 <= i < self.gpu@.len()
        &&& self.gpu@[i].id@ == id
        &&& forall|i2: int| 0 <= i2 < i ==> (#[trigger] self.gpu@[i2]).id@ != id
    }

    /// Entry `j` of GPU `i` is its first on `provider`.
    pub open spec fn first_on_provider(&self, i: int, j: int, provider: ProviderKind) -> bool {
        &&& self.gpu@[i].availability@[j].provider@ == provider.spec_catalog_name()
        &&& forall|j2: int|
            0 <= j2 < j ==> (#[trigger] self.gpu@[i].availability@[j2]).provider@
                != provider.spec_catalog_name()
    }
}

fn offer_of(
    g: &GpuEntry,
    a: &GpuAvailability,
    vram_needed_mgb: u64,
    provider_filter: Option<ProviderKind>,
    max_price_per_hour: Option<u64>,
    gpu_count: u8,
) -> (r: Option<GpuSelection>)
    requires
        a.price_per_sec <= MAX_PRICE_PER_SEC,
    ensures
        r == candidate(*g, *a, vram_needed_mgb, provider_filter, max_price_per_hour, gpu_count),
{
    if gpu_count == 0 {
        return None;
    }
    assert((g.vram_gb as int) * 1000 * (gpu_count as int) <= u64::MAX) by (nonlinear_arith)
        requires
            g.vram_gb <= u32::MAX,
            gpu_count <= 255,
    ;
    let capacity: u64 = (g.vram_gb as u64) * 1000 * (gpu_count as u64);
    if capacity < vram_needed_mgb {
        return None;
    }
    let p = match ProviderKind::from_catalog_name(a.provider.as_str()) {
        Some(p) => p,
        None => {
            return None;
        },
    };
    match provider_filter {
        Some(f) => {
            if f != p {
                return None;
            }
        },
        None => {},
    }
    assert((a.price_per_sec as int) * (gpu_count as int) * 3600 <= u64::MAX) by (nonlinear_arith)
        requires
            a.price_per_sec <= MAX_PRICE_PER_SEC,
            gpu_count <= 255,
    ;
    let total: u64 = a.price_per_sec * (gpu_count as u64);
    let per_hour: u64 = total * 3600;
    match max_price_per_hour {
        Some(m) => {
            if per_hour > m {
                return None;
            }
        },
        None => {},
    }
    Some(
        GpuSelection {
            gpu_id: g.id.clone(),
            gpu_name: g.name.clone(),
            vram_gb: g.vram_gb,
            provider: p,
            provider_gpu_id: a.provider_gpu_id.clone(),
            price_per_sec: total,
            price_per_hour: per_hour,
        },
    )
}

} // verus!
