pub mod uclass;
pub mod ufunction;
pub mod uproperty;
