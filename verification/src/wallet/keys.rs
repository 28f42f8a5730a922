//! The issuer's key for one epoch: the secret scalars, and the public
//! parameters that commit to them.

use crate::constants::{base, basepoint, blinding_base, blinding_basepoint};
use crate::epoch::Epoch;
use crate::point::{ristretto_mul, Point};
use crate::range::{commit, commitment};
use crate::scalar::Scalar;
use rand_core::{CryptoRng, RngCore};
use vstd::prelude::*;

verus! {

/// Public parameters for a wallet issuer.
///
/// These are used by the client to prepare presentation proofs and to ensure
/// that the client is using the same parameters as all other clients,
/// preventing key partitioning attacks.
#[allow(non_snake_case)]
#[derive(Copy, Clone, Debug, PartialEq, Eq)]
pub struct Parameters {
    pub(crate) X_0: Point,
    pub(crate) X_1: Point,
    pub(crate) X_2: Point,
    pub(crate) epoch: Epoch,
}

/// Public parameters as a value of the logic.
#[allow(non_snake_case)]
pub struct ParametersView {
    pub X_0: Seq<u8>,
    pub X_1: Seq<u8>,
    pub X_2: Seq<u8>,
    pub epoch: Epoch,
}

/// The secret scalars of an issuer's key.
#[derive(Copy, Clone, Debug, PartialEq, Eq)]
pub(crate) struct Inner {
    pub(crate) x_0: Scalar,
    pub(crate) x_1: Scalar,
    pub(crate) x_2: Scalar,
    pub(crate) x_0_blinding: Scalar,
    pub(crate) epoch: Epoch,
}

/// Secret key material for a wallet issuer.
///
/// Held by the issuer and used to issue and verify credentials.
#[derive(Copy, Clone, Debug, PartialEq, Eq)]
pub struct Secrets {
    pub(crate) inner: Inner,
    pub(crate) cached_params: Parameters,
}

/// An issuer's secret key as a value of the logic.
pub struct SecretsView {
    pub x_0: nat,
    pub x_1: nat,
    pub x_2: nat,
    pub x_0_blinding: nat,
    pub epoch: Epoch,
}

/// The public parameters that belong to a secret key: a commitment to
/// `x_0`, and `x_1` and `x_2` times the blinding base.
pub open spec fn parameters_of(secrets: SecretsView) -> ParametersView {
    ParametersView {
        X_0: commitment(basepoint(), secrets.x_0, secrets.x_0_blinding),
        X_1: ristretto_mul(secrets.x_1, blinding_basepoint()),
        X_2: ristretto_mul(secrets.x_2, blinding_basepoint()),
        epoch: secrets.epoch,
    }
}

impl Parameters {
    pub open(crate) spec fn view(self) -> ParametersView {
        ParametersView { X_0: self.X_0@, X_1: self.X_1@, X_2: self.X_2@, epoch: self.epoch }
    }

    /// The epoch that the parameters are valid in.
    pub fn epoch(&self) -> (epoch: Epoch)
        ensures
            epoch == self@.epoch,
    {
        self.epoch
    }

    /// The commitment to the issuer's `x_0`.
    #[allow(non_snake_case)]
    pub fn X_0(&self) -> (point: Point)
        ensures
            point@ == self@.X_0,
    {
        self.X_0
    }

    /// The issuer's `x_1` times the blinding base.
    #[allow(non_snake_case)]
    pub fn X_1(&self) -> (point: Point)
        ensures
            point@ == self@.X_1,
    {
        self.X_1
    }

    /// The issuer's `x_2` times the blinding base.
    #[allow(non_snake_case)]
    pub fn X_2(&self) -> (point: Point)
        ensures
            point@ == self@.X_2,
    {
        self.X_2
    }
}

impl Inner {
    pub(crate) open spec fn view(self) -> SecretsView {
        SecretsView {
            x_0: self.x_0@,
            x_1: self.x_1@,
            x_2: self.x_2@,
            x_0_blinding: self.x_0_blinding@,
            epoch: self.epoch,
        }
    }

    /// The public parameters that belong to the secret scalars.
    pub(crate) fn parameters(&self) -> (parameters: Parameters)
        ensures
            parameters@ == parameters_of(self@),
    {
        let blinding_base = blinding_base();
        Parameters {
            X_0: commit(&base(), &self.x_0, &self.x_0_blinding),
            X_1: blinding_base.mul(&self.x_1),
            X_2: blinding_base.mul(&self.x_2),
            epoch: self.epoch,
        }
    }
}

impl Secrets {
    /// The cached parameters are always those of the secret scalars.
    #[verifier::type_invariant]
    pub open(crate) spec fn consistent(self) -> bool {
        self.cached_params@ == parameters_of(self.inner@)
    }

    pub open(crate) spec fn view(self) -> SecretsView {
        self.inner@
    }

    /// The public parameters of the key.
    pub open(crate) spec fn public(self) -> Parameters {
        self.cached_params
    }

    /// The key made of the four given scalars, for `epoch`.
    pub fn from_scalars(
        epoch: Epoch,
        x_0: Scalar,
        x_1: Scalar,
        x_2: Scalar,
        x_0_blinding: Scalar,
    ) -> (secrets: Secrets)
        ensures
            secrets@ == (SecretsView {
                x_0: x_0@,
                x_1: x_1@,
                x_2: x_2@,
                x_0_blinding: x_0_blinding@,
                epoch,
            }),
            secrets.public()@ == parameters_of(secrets@),
    {
        let inner = Inner { epoch, x_0, x_1, x_2, x_0_blinding };
        Secrets { inner, cached_params: inner.parameters() }
    }

    /// A fresh key for `epoch`: four scalars drawn from `rng`, with the
    /// public parameters that belong to them.
    pub fn new<R: RngCore + CryptoRng>(epoch: Epoch, mut rng: R) -> (secrets: Secrets)
        ensures
            secrets@.epoch == epoch,
            secrets.public()@ == parameters_of(secrets@),
    {
        let x_0 = Scalar::random(&mut rng);
        let x_1 = Scalar::random(&mut rng);
        let x_2 = Scalar::random(&mut rng);
        let x_0_blinding = Scalar::random(&mut rng);
        Secrets::from_scalars(epoch, x_0, x_1, x_2, x_0_blinding)
    }

    /// The public parameters of the key.
    pub fn parameters(&self) -> (parameters: Parameters)
        ensures
            parameters == self.public(),
            parameters@ == parameters_of(self@),
    {
        proof {
            use_type_invariant(self);
        }
        self.cached_params
    }
}

impl<'a> From<&'a Secrets> for Parameters {
    fn from(secret: &'a Secrets) -> (parameters: Parameters) {
        secret.cached_params
    }
}

impl<'a> vstd::std_specs::convert::FromSpecImpl<&'a Secrets> for Parameters {
    open spec fn obeys_from_spec() -> bool {
        true
    }

    open spec fn from_spec(secret: &'a Secrets) -> Parameters {
        secret.public()
    }
}

} // verus!
