//! The conversion and normalisation capabilities, and their composition.

use vstd::prelude::*;

use crate::colormap::{float2rgba_simple, simple_colormap};
use crate::rgba::Rgba;
use crate::scalar::Scalar;

verus! {

/// A converter from one scalar to one colour. A converter is a function:
/// the colour depends on nothing but the converter and the scalar.
///
/// `converted` is that function: the colour of each scalar. `convert`
/// computes it, and returns for every scalar the colour that `converted`
/// names.
pub trait FloatToRgba {
    /// The colour that this converter gives to `f`.
    spec fn converted(&self, f: Scalar) -> Rgba;

    /// Converts one scalar.
    fn convert(&self, f: Scalar) -> (rgba: Rgba)
        ensures
            rgba == self.converted(f),
    ;

    /// Converts every scalar of `input`, in order. What `output` held before
    /// is discarded.
    fn convert_many(&self, input: &[Scalar], output: &mut Vec<Rgba>)
        ensures
            final(output)@ == Seq::new(input@.len(), |i: int| self.converted(input@[i])),
    {
        output.clear();
        let mut i: usize = 0;
        while i < input.len()
            invariant
                i <= input@.len(),
                output@ == Seq::new(i as nat, |j: int| self.converted(input@[j])),
            decreases input@.len() - i,
        {
            let converted: Rgba = self.convert(input[i]);
            output.push(converted);
            i = i + 1;
        }
    }
}

/// A map from the scalars of an original domain into 0.0..=1.0.
///
/// `in_domain` is the set of scalars that the map is meant for, and
/// `normalized` is the map itself, on every scalar. `normalize` computes
/// the map, and the lemma is the one law that binds it: what lies in the
/// domain is normalised into 0.0..=1.0.
pub trait Normalize {
    /// The scalars that this normaliser is meant for.
    spec fn in_domain(&self, original: Scalar) -> bool;

    /// The scalar that `original` is normalised to.
    spec fn normalized(&self, original: Scalar) -> Scalar;

    /// A scalar of the domain is normalised into 0.0..=1.0. Of a scalar
    /// outside the domain nothing is asked: it may be normalised to any
    /// scalar, and the converter that follows decides what becomes of it.
    proof fn lemma_domain_in_unit_range(&self, original: Scalar)
        requires
            self.in_domain(original),
        ensures
            self.normalized(original).in_unit_range(),
    ;

    /// Normalises one scalar.
    fn normalize(&self, original: Scalar) -> (normalized: Scalar)
        ensures
            normalized == self.normalized(original),
    ;
}

/// A converter for scalars of an original domain: it normalises, then
/// converts.
pub struct NormalizedConverter<F, N> {
    pub normalizer: N,
    pub converter: F,
}

impl<F, N> FloatToRgba for NormalizedConverter<F, N> where F: FloatToRgba, N: Normalize {
    /// Composition: the colour of `f` is the colour that the inner converter
    /// gives to the normalised `f`.
    open spec fn converted(&self, f: Scalar) -> Rgba {
        self.converter.converted(self.normalizer.normalized(f))
    }

    fn convert(&self, f: Scalar) -> (rgba: Rgba) {
        let normalized: Scalar = self.normalizer.normalize(f);
        self.converter.convert(normalized)
    }
}

/// The reference colormap as a converter.
pub struct SimpleColormap;

impl FloatToRgba for SimpleColormap {
    open spec fn converted(&self, f: Scalar) -> Rgba {
        simple_colormap(f)
    }

    fn convert(&self, f: Scalar) -> (rgba: Rgba) {
        float2rgba_simple(f)
    }
}

/// Composing changes nothing else: for every normaliser, converter and
/// scalar, the composed converter gives the colour that the converter gives
/// to the normalised scalar.
pub proof fn lemma_composition<F: FloatToRgba, N: Normalize>(
    composed: NormalizedConverter<F, N>,
    f: Scalar,
)
    ensures
        composed.converted(f) == composed.converter.converted(composed.normalizer.normalized(f)),
{
}

/// A normalised reference colormap is opaque on the whole domain of its
/// normaliser.
pub proof fn lemma_normalized_simple_is_opaque<N: Normalize>(
    composed: NormalizedConverter<SimpleColormap, N>,
    f: Scalar,
)
    requires
        composed.normalizer.in_domain(f),
    ensures
        composed.converted(f).3 == 255,
{
    composed.normalizer.lemma_domain_in_unit_range(f);
}

} // verus!
