//! The model store: recognised model geometries, the loading of a model
//! matrix from file text, and the append-only in-memory cache.

use vstd::prelude::*;
use vstd::string::StringExecFns;
use crate::csvtext::{csv_values, parse_csv_doubles};
use crate::matrix::ModelMatrix;

verus! {

/// The recognised model geometries.
#[derive(Clone, Copy, PartialEq, Eq, Structural, Debug)]
pub enum ModelId {
    /// The 30x30 model: 900 pixels.
    M30,
    /// The 60x60 model: 3600 pixels.
    M60,
}

impl ModelId {
    /// The wire name of the model.
    pub open spec fn id_view(self) -> Seq<char> {
        match self {
            ModelId::M30 => "30x30"@,
            ModelId::M60 => "60x60"@,
        }
    }

    /// The wire name as a fresh string.
    pub fn name(&self) -> (r: String)
        ensures
            r@ == self.id_view(),
    {
        match self {
            ModelId::M30 => String::from_str("30x30"),
            ModelId::M60 => String::from_str("60x60"),
        }
    }

    /// The side length of the reconstructed image.
    pub open spec fn spec_side(self) -> usize {
        match self {
            ModelId::M30 => 30usize,
            ModelId::M60 => 60usize,
        }
    }

    /// The side length of the reconstructed image.
    pub fn side(&self) -> (r: usize)
        ensures
            r == self.spec_side(),
    {
        match self {
            ModelId::M30 => 30,
            ModelId::M60 => 60,
        }
    }

    /// The pixel count `N`, a perfect square of the side.
    pub open spec fn spec_pixels(self) -> usize {
        match self {
            ModelId::M30 => 900usize,
            ModelId::M60 => 3600usize,
        }
    }

    /// The pixel count `N`.
    pub fn pixels(&self) -> (r: usize)
        ensures
            r == self.spec_pixels(),
            r == self.spec_side() * self.spec_side(),
    {
        match self {
            ModelId::M30 => 900,
            ModelId::M60 => 3600,
        }
    }

    /// The static working-set estimate of the model, in MiB.
    pub open spec fn spec_cost_mb(self) -> u64 {
        match self {
            ModelId::M30 => 512u64,
            ModelId::M60 => 1536u64,
        }
    }

    /// The static working-set estimate of the model, in MiB.
    pub fn cost_mb(&self) -> (r: u64)
        ensures
            r == self.spec_cost_mb(),
    {
        match self {
            ModelId::M30 => 512,
            ModelId::M60 => 1536,
        }
    }
}

/// Which model a wire name denotes, if any.
pub open spec fn spec_parse_model(s: Seq<char>) -> Option<ModelId> {
    if s == "30x30"@ {
        Some(ModelId::M30)
    } else if s == "60x60"@ {
        Some(ModelId::M60)
    } else {
        None
    }
}

/// Parses a model wire name.
pub fn parse_model_id(s: &String) -> (r: Option<ModelId>)
    ensures
        r == spec_parse_model(s@),
{
    if *s == String::from_str("30x30") {
        Some(ModelId::M30)
    } else if *s == String::from_str("60x60") {
        Some(ModelId::M60)
    } else {
        None
    }
}

/// Whether `needle` occurs in `hay` starting at position `k`.
pub open spec fn occurs_at(hay: Seq<u8>, needle: Seq<u8>, k: int) -> bool {
    0 <= k && k + needle.len() <= hay.len() && hay.subrange(k, k + needle.len()) == needle
}

/// Whether `needle` occurs anywhere in `hay`.
pub open spec fn contains_seq(hay: Seq<u8>, needle: Seq<u8>) -> bool {
    exists|k: int| occurs_at(hay, needle, k)
}

/// The bytes of the large model's wire name.
pub open spec fn large_name_bytes() -> Seq<u8> {
    seq![54u8, 48u8, 120u8, 54u8, 48u8]
}

/// Infers the model a signal file belongs to from the file's name, as
/// the request driver does: a name carrying the large model's digits
/// denotes the large model, anything else the small one.
#[verifier::loop_isolation(false)]
pub fn infer_model_id(name: &[u8]) -> (r: ModelId)
    ensures
        r == if contains_seq(name@, large_name_bytes()) {
            ModelId::M60
        } else {
            ModelId::M30
        },
{
    let len = name.len();
    if len >= 5 {
        let mut k: usize = 0;
        while k <= len - 5
            invariant
                k <= len,
                forall|t: int| 0 <= t < k ==> !occurs_at(name@, large_name_bytes(), t),
            decreases len - k,
        {
            if name[k] == 54 && name[k + 1] == 48 && name[k + 2] == 120 && name[k + 3] == 54
                && name[k + 4] == 48 {
                proof {
                    assert(name@.subrange(k as int, k as int + 5) =~= large_name_bytes());
                    assert(occurs_at(name@, large_name_bytes(), k as int));
                }
                return ModelId::M60;
            }
            proof {
                let kk = k as int;
                assert(!occurs_at(name@, large_name_bytes(), kk)) by {
                    if occurs_at(name@, large_name_bytes(), kk) {
                        assert(name@.subrange(kk, kk + 5)[0] == name@[kk]);
                        assert(name@.subrange(kk, kk + 5)[1] == name@[kk + 1]);
                        assert(name@.subrange(kk, kk + 5)[2] == name@[kk + 2]);
                        assert(name@.subrange(kk, kk + 5)[3] == name@[kk + 3]);
                        assert(name@.subrange(kk, kk + 5)[4] == name@[kk + 4]);
                    }
                }
            }
            k = k + 1;
        }
        proof {
            assert forall|t: int| occurs_at(name@, large_name_bytes(), t) implies false by {
                assert(0 <= t && t + 5 <= len);
                assert(t < k);
            }
        }
        ModelId::M30
    } else {
        proof {
            assert forall|t: int| occurs_at(name@, large_name_bytes(), t) implies false by {
                assert(t + 5 <= len);
            }
        }
        ModelId::M30
    }
}

/// The on-disk file name of a model matrix: `H-` then the model name then
/// `.csv`.
pub fn h_csv_filename(id: ModelId) -> (r: String)
    ensures
        r@ == "H-"@ + id.id_view() + ".csv"@,
{
    let mut s = String::from_str("H-");
    s.append(id.name().as_str());
    s.append(".csv");
    s
}

/// Why a model matrix could not be produced from its file.
#[derive(Clone, Copy, PartialEq, Eq, Structural, Debug)]
pub enum ModelError {
    /// Some field of the file is not a readable double.
    ParseError,
    /// The element count does not match the expected geometry.
    DimensionMismatch,
}

/// Parses a model file and shapes it: succeeds exactly when every field
/// reads as a double and the element count is `s_samples * n_pixels`.
pub fn load_matrix(s_samples: usize, n_pixels: usize, text: &Vec<u8>) -> (r: Result<
    ModelMatrix,
    ModelError,
>)
    ensures
        match r {
            Ok(m) => m.wf() && m.s == s_samples && m.n == n_pixels && csv_values(text@)
                == Some(m.data@),
            Err(ModelError::ParseError) => csv_values(text@) is None,
            Err(ModelError::DimensionMismatch) => match csv_values(text@) {
                Some(vs) => vs.len() != s_samples * n_pixels,
                None => false,
            },
        },
{
    match parse_csv_doubles(text) {
        None => Err(ModelError::ParseError),
        Some(data) => {
            proof {
                vstd::arithmetic::mul::lemma_mul_upper_bound(
                    s_samples as int,
                    0xFFFF_FFFF_FFFF_FFFF,
                    n_pixels as int,
                    0xFFFF_FFFF_FFFF_FFFF,
                );
                assert(0xFFFF_FFFF_FFFF_FFFFint * 0xFFFF_FFFF_FFFF_FFFFint < u128::MAX)
                    by (nonlinear_arith);
            }
            let need = (s_samples as u128) * (n_pixels as u128);
            if (data.len() as u128) != need {
                Err(ModelError::DimensionMismatch)
            } else {
                Ok(ModelMatrix { s: s_samples, n: n_pixels, data })
            }
        },
    }
}

/// The in-memory cache of parsed model matrices: one slot per recognised
/// model, filled at most once.
pub struct ModelStore {
    /// The cached 30x30 matrix, if loaded.
    pub m30: Option<ModelMatrix>,
    /// The cached 60x60 matrix, if loaded.
    pub m60: Option<ModelMatrix>,
}

impl ModelStore {
    /// The cached matrix of a model.
    pub open spec fn entry(self, id: ModelId) -> Option<ModelMatrix> {
        match id {
            ModelId::M30 => self.m30,
            ModelId::M60 => self.m60,
        }
    }

    /// A slot, when filled, holds a well-formed matrix with its model's
    /// pixel count.
    pub open spec fn slot_ok(e: Option<ModelMatrix>, id: ModelId) -> bool {
        match e {
            Some(m) => m.wf() && m.n == id.spec_pixels(),
            None => true,
        }
    }

    /// Every cached matrix is well formed and has its model's pixel count.
    pub open spec fn wf(self) -> bool {
        Self::slot_ok(self.m30, ModelId::M30) && Self::slot_ok(self.m60, ModelId::M60)
    }

    /// An empty cache.
    pub fn new() -> (r: ModelStore)
        ensures
            r.wf(),
            forall|id: ModelId| #[trigger] r.entry(id) is None,
    {
        ModelStore { m30: None, m60: None }
    }

    /// The store after offering a matrix for a model: the cache is
    /// append-only, so an occupied slot keeps its first matrix.
    pub open spec fn install_spec(self, id: ModelId, m: ModelMatrix) -> ModelStore {
        if self.entry(id) is Some {
            self
        } else {
            match id {
                ModelId::M30 => ModelStore { m30: Some(m), m60: self.m60 },
                ModelId::M60 => ModelStore { m30: self.m30, m60: Some(m) },
            }
        }
    }

    /// The cached matrix of a model, if present.
    pub fn lookup(&self, id: ModelId) -> (r: Option<&ModelMatrix>)
        ensures
            match r {
                Some(m) => self.entry(id) == Some(*m),
                None => self.entry(id) is None,
            },
    {
        match id {
            ModelId::M30 => self.m30.as_ref(),
            ModelId::M60 => self.m60.as_ref(),
        }
    }

    /// Offers a freshly parsed matrix for a model's slot; a matrix cached
    /// earlier wins.
    pub fn install(&mut self, id: ModelId, m: ModelMatrix)
        requires
            old(self).wf(),
            m.wf(),
            m.n == id.spec_pixels(),
        ensures
            *final(self) == old(self).install_spec(id, m),
            final(self).wf(),
    {
        match id {
            ModelId::M30 => {
                if self.m30.is_none() {
                    self.m30 = Some(m);
                }
            },
            ModelId::M60 => {
                if self.m60.is_none() {
                    self.m60 = Some(m);
                }
            },
        }
    }
}

/// Law: model loading is idempotent. Once a model's slot is filled,
/// offering any further matrix leaves the stored one untouched, so
/// repeated gets of a model return element-equal buffers with identical
/// dimensions.
pub proof fn lemma_model_load_idempotent(
    st: ModelStore,
    id: ModelId,
    m0: ModelMatrix,
    m1: ModelMatrix,
)
    requires
        st.entry(id) == Some(m0),
    ensures
        st.install_spec(id, m1).entry(id) == Some(m0),
        st.install_spec(id, m1) == st,
{
}

} // verus!
