//! The checks made on a registration before an account is created.
use crate::models::RegisterForm;
use vstd::prelude::*;

verus! {

/// Why a registration is refused.
#[derive(Debug, Clone, Copy, PartialEq, Eq, Structural)]
pub enum RegistrationError {
    /// The wiki does not take new registrations.
    Forbidden,
    /// The password and its confirmation differ.
    PasswordMismatch,
}

/// Accepts a registration form where registration is open and the password
/// was typed the same twice.
pub fn check_registration(registration_disabled: bool, form: &RegisterForm) -> (r: Result<
    (),
    RegistrationError,
>)
    ensures
        registration_disabled ==> r == Err::<(), RegistrationError>(RegistrationError::Forbidden),
        !registration_disabled && form.password@ != form.password_confirm@ ==> r == Err::<
            (),
            RegistrationError,
        >(RegistrationError::PasswordMismatch),
        r is Ok <==> !registration_disabled && form.password@ == form.password_confirm@,
{
    if registration_disabled {
        return Err(RegistrationError::Forbidden);
    }
    if form.password != form.password_confirm {
        return Err(RegistrationError::PasswordMismatch);
    }
    Ok(())
}

} // verus!
