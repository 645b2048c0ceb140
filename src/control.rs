//! Choosing how to reach a display's brightness, and the software path's
//! scale.

use vstd::prelude::*;
use crate::registry::{ControlMethod, DisplayInfo};
use crate::text::{decimal, decimal_bytes, lossy_text, text_of};

verus! {

/// Where a brightness request goes.
#[derive(Debug, Clone)]
pub enum BrightnessRoute {
    /// VCP feature 0x10 on this I2C bus.
    Ddc { bus: u8 },
    /// Output brightness of this display-server output.
    Software { output: String },
}

/// Content of a `BrightnessRoute`.
pub enum RouteView {
    Ddc(u8),
    Software(Seq<char>),
}

impl View for BrightnessRoute {
    type V = RouteView;

    open spec fn view(&self) -> RouteView {
        match self {
            BrightnessRoute::Ddc { bus } => RouteView::Ddc(*bus),
            BrightnessRoute::Software { output } => RouteView::Software(output@),
        }
    }
}

/// No control method reaches the display.
#[derive(Debug, Clone, Copy, PartialEq, Eq, Structural)]
pub enum ControlError {
    NoMethodAvailable,
}

/// The route for a display: the preferred method when the display offers
/// it, else DDC/CI when supported, else the software fallback.
pub open spec fn route_of(
    bus: u8,
    ddc: bool,
    fallback: Option<Seq<char>>,
    pref: Option<ControlMethod>,
) -> Option<RouteView> {
    if pref == Some(ControlMethod::Ddc) && ddc {
        Some(RouteView::Ddc(bus))
    } else if pref == Some(ControlMethod::Software) && fallback is Some {
        Some(RouteView::Software(fallback->Some_0))
    } else if ddc {
        Some(RouteView::Ddc(bus))
    } else if fallback is Some {
        Some(RouteView::Software(fallback->Some_0))
    } else {
        None
    }
}

/// Picks how to read or set a display's brightness.
pub fn route_brightness(display: &DisplayInfo, pref: Option<ControlMethod>) -> (r: Result<
    BrightnessRoute,
    ControlError,
>)
    ensures
        match route_of(display.i2c_bus, display.supports_ddc, display@.fallback_output, pref) {
            Some(v) => r is Ok && r->Ok_0@ == v,
            None => r == Err::<BrightnessRoute, ControlError>(ControlError::NoMethodAvailable),
        },
{
    let want_ddc = match pref {
        Some(ControlMethod::Ddc) => true,
        _ => false,
    };
    let want_software = match pref {
        Some(ControlMethod::Software) => true,
        _ => false,
    };
    if want_ddc && display.supports_ddc {
        return Ok(BrightnessRoute::Ddc { bus: display.i2c_bus });
    }
    if want_software {
        match &display.fallback_output {
            Some(out) => {
                return Ok(BrightnessRoute::Software { output: out.clone() });
            },
            None => {},
        }
    }
    if display.supports_ddc {
        return Ok(BrightnessRoute::Ddc { bus: display.i2c_bus });
    }
    match &display.fallback_output {
        Some(out) => Ok(BrightnessRoute::Software { output: out.clone() }),
        None => Err(ControlError::NoMethodAvailable),
    }
}

/// `value / 100` with two decimals, as the output-brightness interface
/// takes it.
pub open spec fn factor_text(value: u8) -> Seq<u8> {
    let cents = value as nat % 100;
    decimal(value as nat / 100) + seq![0x2Eu8, (0x30 + cents / 10) as u8, (0x30 + cents % 10) as u8]
}

/// A percentage as the output-brightness factor, such as `0.50`.
pub fn brightness_factor_text(value: u8) -> (r: String)
    ensures
        r@ == lossy_text(factor_text(value)),
{
    let mut v = decimal_bytes((value / 100) as u64);
    let cents: u8 = value % 100;
    let mut frac: Vec<u8> = vec![0x2E, 0x30 + cents / 10, 0x30 + cents % 10];
    v.append(&mut frac);
    assert(v@ =~= factor_text(value));
    text_of(v.as_slice())
}

} // verus!
